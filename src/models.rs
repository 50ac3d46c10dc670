//! Request and response models of the SMS-sending API.

use vstd::prelude::*;
use vstd::string::*;
use vstd::utf8::encode_utf8;
use crate::ordering::Entry;
use crate::text::{has_prefix, starts_with, text_equal};

verus! {

/// Request to send SMS messages.
#[derive(Clone, Debug)]
pub struct SendSmsRequest {
    /// Phone numbers to send to, as `+{country code}{number}`; at most 200.
    pub phone_number_set: Vec<String>,
    /// SMS SDK App ID.
    pub sms_sdk_app_id: String,
    /// Template ID.
    pub template_id: String,
    /// Signature content; required for domestic messages.
    pub sign_name: Option<String>,
    /// Template parameters.
    pub template_param_set: Option<Vec<String>>,
    /// Extension code.
    pub extend_code: Option<String>,
    /// Session context that the server hands back.
    pub session_context: Option<String>,
    /// Sender ID for international messages.
    pub sender_id: Option<String>,
}

/// The template parameters as a request holds them: none when the list is empty.
pub open spec fn param_set(params: Vec<String>) -> Option<Vec<String>> {
    if params@.len() == 0 {
        None
    } else {
        Some(params)
    }
}

/// The most phone numbers one request may name.
pub const MAX_PHONE_NUMBERS: usize = 200;

/// A phone number is accepted when it starts with `+`, `0086` or `86`, or
/// else is 11 bytes long.
pub open spec fn phone_accepted(phone: Seq<char>) -> bool {
    has_prefix(phone, "+"@) || has_prefix(phone, "0086"@) || has_prefix(phone, "86"@)
        || encode_utf8(phone).len() == 11
}

/// The first phone number that is not accepted.
pub open spec fn first_rejected_phone(phones: Seq<String>) -> Option<Seq<char>>
    decreases phones.len(),
{
    if phones.len() == 0 {
        None
    } else if !phone_accepted(phones[0]@) {
        Some(phones[0]@)
    } else {
        first_rejected_phone(phones.drop_first())
    }
}

/// Why a request is refused, checked in this order: no phone numbers, too
/// many, an empty App ID, an empty template ID, a phone number not accepted.
pub open spec fn request_problem(r: SendSmsRequest) -> Option<Seq<char>> {
    if r.phone_number_set@.len() == 0 {
        Some("Phone number set cannot be empty"@)
    } else if r.phone_number_set@.len() > MAX_PHONE_NUMBERS {
        Some("Phone number set cannot exceed 200 numbers"@)
    } else if r.sms_sdk_app_id@.len() == 0 {
        Some("SMS SDK App ID cannot be empty"@)
    } else if r.template_id@.len() == 0 {
        Some("Template ID cannot be empty"@)
    } else {
        match first_rejected_phone(r.phone_number_set@) {
            Some(p) => Some("Invalid phone number format: "@ + p),
            None => None,
        }
    }
}

impl SendSmsRequest {
    /// A domestic request with the given numbers, App ID, template,
    /// signature and template parameters.
    pub fn new(
        phone_number_set: Vec<String>,
        sms_sdk_app_id: &str,
        template_id: &str,
        sign_name: &str,
        template_param_set: Vec<String>,
    ) -> (r: Self)
        ensures
            r.phone_number_set == phone_number_set,
            r.sms_sdk_app_id@ == sms_sdk_app_id@,
            r.template_id@ == template_id@,
            r.sign_name matches Some(s) && s@ == sign_name@,
            r.template_param_set == param_set(template_param_set),
            r.extend_code is None,
            r.session_context is None,
            r.sender_id is None,
    {
        let params = if template_param_set.len() == 0 {
            None
        } else {
            Some(template_param_set)
        };
        SendSmsRequest {
            phone_number_set,
            sms_sdk_app_id: String::from_str(sms_sdk_app_id),
            template_id: String::from_str(template_id),
            sign_name: Some(String::from_str(sign_name)),
            template_param_set: params,
            extend_code: None,
            session_context: None,
            sender_id: None,
        }
    }

    /// An international request, which carries no signature.
    pub fn new_international(
        phone_number_set: Vec<String>,
        sms_sdk_app_id: &str,
        template_id: &str,
        template_param_set: Vec<String>,
    ) -> (r: Self)
        ensures
            r.phone_number_set == phone_number_set,
            r.sms_sdk_app_id@ == sms_sdk_app_id@,
            r.template_id@ == template_id@,
            r.sign_name is None,
            r.template_param_set == param_set(template_param_set),
            r.extend_code is None,
            r.session_context is None,
            r.sender_id is None,
    {
        let params = if template_param_set.len() == 0 {
            None
        } else {
            Some(template_param_set)
        };
        SendSmsRequest {
            phone_number_set,
            sms_sdk_app_id: String::from_str(sms_sdk_app_id),
            template_id: String::from_str(template_id),
            sign_name: None,
            template_param_set: params,
            extend_code: None,
            session_context: None,
            sender_id: None,
        }
    }

    /// Sets the signature.
    pub fn set_sign_name(&mut self, sign_name: &str) -> (r: &mut Self)
        ensures
            r.sign_name matches Some(s) && s@ == sign_name@,
            *r == (SendSmsRequest { sign_name: r.sign_name, ..*old(self) }),
            *final(self) == *final(r),
    {
        self.sign_name = Some(String::from_str(sign_name));
        self
    }

    /// Sets the template parameters; an empty list clears them.
    pub fn set_template_param_set(&mut self, params: Vec<String>) -> (r: &mut Self)
        ensures
            *r == (SendSmsRequest { template_param_set: param_set(params), ..*old(self) }),
            *final(self) == *final(r),
    {
        self.template_param_set = if params.len() == 0 {
            None
        } else {
            Some(params)
        };
        self
    }

    /// Sets the extension code.
    pub fn set_extend_code(&mut self, extend_code: &str) -> (r: &mut Self)
        ensures
            r.extend_code matches Some(s) && s@ == extend_code@,
            *r == (SendSmsRequest { extend_code: r.extend_code, ..*old(self) }),
            *final(self) == *final(r),
    {
        self.extend_code = Some(String::from_str(extend_code));
        self
    }

    /// Sets the session context.
    pub fn set_session_context(&mut self, session_context: &str) -> (r: &mut Self)
        ensures
            r.session_context matches Some(s) && s@ == session_context@,
            *r == (SendSmsRequest { session_context: r.session_context, ..*old(self) }),
            *final(self) == *final(r),
    {
        self.session_context = Some(String::from_str(session_context));
        self
    }

    /// Sets the sender ID.
    pub fn set_sender_id(&mut self, sender_id: &str) -> (r: &mut Self)
        ensures
            r.sender_id matches Some(s) && s@ == sender_id@,
            *r == (SendSmsRequest { sender_id: r.sender_id, ..*old(self) }),
            *final(self) == *final(r),
    {
        self.sender_id = Some(String::from_str(sender_id));
        self
    }

    /// Checks the request, returning the first problem found.
    pub fn validate(&self) -> (r: Result<(), String>)
        ensures
            match request_problem(*self) {
                Some(msg) => r matches Err(e) && e@ == msg,
                None => r is Ok,
            },
    {
        if self.phone_number_set.len() == 0 {
            return Err(String::from_str("Phone number set cannot be empty"));
        }
        if self.phone_number_set.len() > MAX_PHONE_NUMBERS {
            return Err(String::from_str("Phone number set cannot exceed 200 numbers"));
        }
        if self.sms_sdk_app_id.as_str().is_empty() {
            return Err(String::from_str("SMS SDK App ID cannot be empty"));
        }
        if self.template_id.as_str().is_empty() {
            return Err(String::from_str("Template ID cannot be empty"));
        }
        let mut i: usize = 0;
        assert(self.phone_number_set@.skip(0) =~= self.phone_number_set@);
        while i < self.phone_number_set.len()
            invariant
                0 <= i <= self.phone_number_set@.len(),
                first_rejected_phone(self.phone_number_set@) == first_rejected_phone(
                    self.phone_number_set@.skip(i as int),
                ),
                1 <= self.phone_number_set@.len() <= MAX_PHONE_NUMBERS,
                self.sms_sdk_app_id@.len() != 0,
                self.template_id@.len() != 0,
            decreases self.phone_number_set@.len() - i,
        {
            let phone = self.phone_number_set[i].as_str();
            let plus = starts_with(phone, "+");
            let zero = starts_with(phone, "0086");
            let cc = starts_with(phone, "86");
            let eleven = phone.as_bytes().len() == 11;
            assert(plus == has_prefix(phone@, "+"@));
            assert(eleven == (encode_utf8(phone@).len() == 11));
            let accepted = plus || zero || cc || eleven;
            assert(accepted == phone_accepted(phone@));
            if !accepted {
                assert(first_rejected_phone(self.phone_number_set@.skip(i as int)) == Some(
                    phone@,
                ));
                assert(request_problem(*self) == Some("Invalid phone number format: "@ + phone@));
                return Err(String::from_str("Invalid phone number format: ").concat(phone));
            }
            assert(self.phone_number_set@.skip(i as int).drop_first() =~= self.phone_number_set@.skip(i + 1));
            i = i + 1;
        }
        Ok(())
    }
}

/// Delivery status of one message.
#[derive(Clone, Debug)]
pub struct SendStatus {
    /// Serial number of the message.
    pub serial_no: String,
    /// Phone number.
    pub phone_number: String,
    /// Number of billable messages.
    pub fee: i32,
    /// Session context.
    pub session_context: String,
    /// Status code; `Ok` on success.
    pub code: String,
    /// Status message.
    pub message: String,
    /// Country or region code.
    pub iso_code: String,
}

/// A status reports success when its code is `Ok`.
pub open spec fn status_ok(s: SendStatus) -> bool {
    s.code@ == "Ok"@
}

/// The description of a status code.
pub open spec fn status_description(code: Seq<char>) -> Seq<char> {
    if code == "Ok"@ {
        "Success"@
    } else if code == "InvalidParameterValue.IncorrectPhoneNumber"@ {
        "Invalid phone number format"@
    } else if code == "FailedOperation.SignatureIncorrectOrUnapproved"@ {
        "Signature incorrect or unapproved"@
    } else if code == "FailedOperation.TemplateIncorrectOrUnapproved"@ {
        "Template incorrect or unapproved"@
    } else if code == "FailedOperation.InsufficientBalanceInSmsPackage"@ {
        "Insufficient balance"@
    } else if code == "LimitExceeded.PhoneNumberCountLimit"@ {
        "Phone number count limit exceeded"@
    } else if code == "LimitExceeded.DeliveryFrequencyLimit"@ {
        "Delivery frequency limit exceeded"@
    } else {
        "Unknown status"@
    }
}

impl SendStatus {
    /// Whether the message was sent.
    pub fn is_success(&self) -> (r: bool)
        ensures
            r == status_ok(*self),
    {
        text_equal(self.code.as_str(), "Ok")
    }

    /// A readable description of the status code.
    pub fn get_status_description(&self) -> (r: &str)
        ensures
            r@ == status_description(self.code@),
    {
        let code = self.code.as_str();
        if text_equal(code, "Ok") {
            "Success"
        } else if text_equal(code, "InvalidParameterValue.IncorrectPhoneNumber") {
            "Invalid phone number format"
        } else if text_equal(code, "FailedOperation.SignatureIncorrectOrUnapproved") {
            "Signature incorrect or unapproved"
        } else if text_equal(code, "FailedOperation.TemplateIncorrectOrUnapproved") {
            "Template incorrect or unapproved"
        } else if text_equal(code, "FailedOperation.InsufficientBalanceInSmsPackage") {
            "Insufficient balance"
        } else if text_equal(code, "LimitExceeded.PhoneNumberCountLimit") {
            "Phone number count limit exceeded"
        } else if text_equal(code, "LimitExceeded.DeliveryFrequencyLimit") {
            "Delivery frequency limit exceeded"
        } else {
            "Unknown status"
        }
    }
}

/// Response to a send request.
#[derive(Clone, Debug)]
pub struct SendSmsResponse {
    /// Status of each message.
    pub send_status_set: Vec<SendStatus>,
    /// Unique request ID.
    pub request_id: String,
}

/// How many statuses report success.
pub open spec fn success_total(s: Seq<SendStatus>) -> nat
    decreases s.len(),
{
    if s.len() == 0 {
        0
    } else {
        success_total(s.drop_last()) + if status_ok(s.last()) {
            1nat
        } else {
            0nat
        }
    }
}

/// How many statuses report failure.
pub open spec fn failure_total(s: Seq<SendStatus>) -> nat
    decreases s.len(),
{
    if s.len() == 0 {
        0
    } else {
        failure_total(s.drop_last()) + if status_ok(s.last()) {
            0nat
        } else {
            1nat
        }
    }
}

/// The phone numbers of the successful statuses, in order.
pub open spec fn successful_phones(s: Seq<SendStatus>) -> Seq<Seq<char>>
    decreases s.len(),
{
    if s.len() == 0 {
        Seq::empty()
    } else if status_ok(s.last()) {
        successful_phones(s.drop_last()).push(s.last().phone_number@)
    } else {
        successful_phones(s.drop_last())
    }
}

/// The phone number and message of each failed status, in order.
pub open spec fn failed_phones(s: Seq<SendStatus>) -> Seq<Entry>
    decreases s.len(),
{
    if s.len() == 0 {
        Seq::empty()
    } else if status_ok(s.last()) {
        failed_phones(s.drop_last())
    } else {
        failed_phones(s.drop_last()).push((s.last().phone_number@, s.last().message@))
    }
}

/// The first status for a phone number.
pub open spec fn status_for(s: Seq<SendStatus>, phone: Seq<char>) -> Option<SendStatus>
    decreases s.len(),
{
    if s.len() == 0 {
        None
    } else if s[0].phone_number@ == phone {
        Some(s[0])
    } else {
        status_for(s.drop_first(), phone)
    }
}

/// The sum of the fees.
pub open spec fn fee_total(s: Seq<SendStatus>) -> int
    decreases s.len(),
{
    if s.len() == 0 {
        0
    } else {
        fee_total(s.drop_last()) + s.last().fee
    }
}

impl SendSmsResponse {
    /// Whether every message was sent.
    pub fn is_all_success(&self) -> (r: bool)
        ensures
            r == (forall|i: int|
                0 <= i < self.send_status_set@.len() ==> status_ok(
                    #[trigger] self.send_status_set@[i],
                )),
    {
        let mut i: usize = 0;
        while i < self.send_status_set.len()
            invariant
                0 <= i <= self.send_status_set@.len(),
                forall|k: int| 0 <= k < i ==> status_ok(#[trigger] self.send_status_set@[k]),
            decreases self.send_status_set@.len() - i,
        {
            if !self.send_status_set[i].is_success() {
                assert(!status_ok(self.send_status_set@[i as int]));
                return false;
            }
            i = i + 1;
        }
        true
    }

    /// How many messages were sent.
    pub fn success_count(&self) -> (r: usize)
        ensures
            r == success_total(self.send_status_set@),
    {
        let mut n: usize = 0;
        let mut i: usize = 0;
        while i < self.send_status_set.len()
            invariant
                0 <= i <= self.send_status_set@.len(),
                n == success_total(self.send_status_set@.take(i as int)),
                n <= i,
            decreases self.send_status_set@.len() - i,
        {
            assert(self.send_status_set@.take(i + 1).drop_last() =~= self.send_status_set@.take(i as int));
            if self.send_status_set[i].is_success() {
                n = n + 1;
            }
            i = i + 1;
        }
        assert(self.send_status_set@.take(self.send_status_set@.len() as int) =~= self.send_status_set@);
        n
    }

    /// How many messages failed.
    pub fn failed_count(&self) -> (r: usize)
        ensures
            r == failure_total(self.send_status_set@),
    {
        let mut n: usize = 0;
        let mut i: usize = 0;
        while i < self.send_status_set.len()
            invariant
                0 <= i <= self.send_status_set@.len(),
                n == failure_total(self.send_status_set@.take(i as int)),
                n <= i,
            decreases self.send_status_set@.len() - i,
        {
            assert(self.send_status_set@.take(i + 1).drop_last() =~= self.send_status_set@.take(i as int));
            if !self.send_status_set[i].is_success() {
                n = n + 1;
            }
            i = i + 1;
        }
        assert(self.send_status_set@.take(self.send_status_set@.len() as int) =~= self.send_status_set@);
        n
    }

    /// The phone number and message of each failed message, in order.
    pub fn get_failed_numbers(&self) -> (r: Vec<(String, String)>)
        ensures
            crate::ordering::entries_view(r@) == failed_phones(self.send_status_set@),
    {
        let mut out: Vec<(String, String)> = Vec::new();
        let mut i: usize = 0;
        while i < self.send_status_set.len()
            invariant
                0 <= i <= self.send_status_set@.len(),
                crate::ordering::entries_view(out@) == failed_phones(self.send_status_set@.take(i as int)),
            decreases self.send_status_set@.len() - i,
        {
            assert(self.send_status_set@.take(i + 1).drop_last() =~= self.send_status_set@.take(i as int));
            if !self.send_status_set[i].is_success() {
                let ghost before = crate::ordering::entries_view(out@);
                let p = (self.send_status_set[i].phone_number.clone(), self.send_status_set[i].message.clone());
                out.push(p);
                assert(crate::ordering::entries_view(out@) =~= before.push(
                    (self.send_status_set@[i as int].phone_number@, self.send_status_set@[i as int].message@),
                ));
            }
            i = i + 1;
        }
        assert(self.send_status_set@.take(self.send_status_set@.len() as int) =~= self.send_status_set@);
        out
    }

    /// The phone numbers of the messages that were sent, in order.
    pub fn get_successful_numbers(&self) -> (r: Vec<String>)
        ensures
            crate::text::texts(r@) == successful_phones(self.send_status_set@),
    {
        let mut out: Vec<String> = Vec::new();
        let mut i: usize = 0;
        while i < self.send_status_set.len()
            invariant
                0 <= i <= self.send_status_set@.len(),
                crate::text::texts(out@) == successful_phones(self.send_status_set@.take(i as int)),
            decreases self.send_status_set@.len() - i,
        {
            assert(self.send_status_set@.take(i + 1).drop_last() =~= self.send_status_set@.take(i as int));
            if self.send_status_set[i].is_success() {
                let ghost before = crate::text::texts(out@);
                out.push(self.send_status_set[i].phone_number.clone());
                assert(crate::text::texts(out@) =~= before.push(self.send_status_set@[i as int].phone_number@));
            }
            i = i + 1;
        }
        assert(self.send_status_set@.take(self.send_status_set@.len() as int) =~= self.send_status_set@);
        out
    }

    /// The position of the first status for a phone number.
    fn find_phone(&self, phone_number: &str) -> (r: Option<usize>)
        ensures
            match status_for(self.send_status_set@, phone_number@) {
                Some(st) => r matches Some(i) && i < self.send_status_set@.len()
                    && self.send_status_set@[i as int] == st,
                None => r is None,
            },
    {
        let mut i: usize = 0;
        assert(self.send_status_set@.skip(0) =~= self.send_status_set@);
        while i < self.send_status_set.len()
            invariant
                0 <= i <= self.send_status_set@.len(),
                status_for(self.send_status_set@, phone_number@) == status_for(self.send_status_set@.skip(i as int), phone_number@),
            decreases self.send_status_set@.len() - i,
        {
            assert(self.send_status_set@.skip(i as int)[0] == self.send_status_set@[i as int]);
            if text_equal(self.send_status_set[i].phone_number.as_str(), phone_number) {
                assert(self.send_status_set@.skip(i as int)[0] == self.send_status_set@[i as int]);
                assert(self.send_status_set@[i as int].phone_number@ == phone_number@);
                return Some(i);
            }
            assert(self.send_status_set@.skip(i as int).drop_first() =~= self.send_status_set@.skip(i + 1));
            i = i + 1;
        }
        None
    }

    /// Whether the first status for a phone number reports success; false
    /// when there is none.
    pub fn check_phone_success(&self, phone_number: &str) -> (r: bool)
        ensures
            r == (status_for(self.send_status_set@, phone_number@) matches Some(st) && status_ok(
                st,
            )),
    {
        match self.find_phone(phone_number) {
            Some(i) => self.send_status_set[i].is_success(),
            None => false,
        }
    }

    /// The first status for a phone number.
    pub fn get_phone_status(&self, phone_number: &str) -> (r: Option<&SendStatus>)
        ensures
            match status_for(self.send_status_set@, phone_number@) {
                Some(st) => r matches Some(x) && *x == st,
                None => r is None,
            },
    {
        match self.find_phone(phone_number) {
            Some(i) => Some(&self.send_status_set[i]),
            None => None,
        }
    }

    /// The sum of the fees of all messages; the sum must fit in an `i32`.
    pub fn get_total_fee(&self) -> (r: i32)
        requires
            i32::MIN <= fee_total(self.send_status_set@) <= i32::MAX,
        ensures
            r == fee_total(self.send_status_set@),
    {
        let mut total: i128 = 0;
        let mut i: usize = 0;
        assert(self.send_status_set@.take(0) =~= Seq::<SendStatus>::empty());
        while i < self.send_status_set.len()
            invariant
                0 <= i <= self.send_status_set@.len(),
                i <= usize::MAX,
                total == fee_total(self.send_status_set@.take(i as int)),
                -2147483648 * (i as int) <= total <= 2147483647 * (i as int),
            decreases self.send_status_set@.len() - i,
        {
            assert(self.send_status_set@.take(i + 1).drop_last() =~= self.send_status_set@.take(
                i as int,
            ));
            total = total + self.send_status_set[i].fee as i128;
            i = i + 1;
        }
        assert(self.send_status_set@.take(self.send_status_set@.len() as int)
            =~= self.send_status_set@);
        total as i32
    }
}

} // verus!
