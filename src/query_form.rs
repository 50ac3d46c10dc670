//! Canonical query strings are fixed points of canonicalization when their
//! text holds no escapes.

use vstd::prelude::*;
use vstd::utf8::{encode_utf8, is_ascii_chars, is_ascii_chars_encode_utf8};
use crate::encoding::{form_encoded, form_encoded_byte, form_unreserved, upper_hex_digit};
use crate::ordering::{lemma_ordered_unique, lemma_sorted_entries, sorted_entries, Entry};
use crate::signature::{
    canonical_query, param_text, param_texts, params_of, query_params, segment_param, AMPERSAND,
    EQUALS,
};
use crate::text::{joined, joined_bytes, lemma_split_joined, split_on};

verus! {

/// A character that form encoding keeps as it is.
pub open spec fn is_plain(c: char) -> bool {
    c == '*' || c == '-' || c == '.' || c == '_' || ('0' <= c && c <= '9') || ('A' <= c && c
        <= 'Z') || ('a' <= c && c <= 'z')
}

/// A character that form encoding may write.
pub open spec fn is_form_char(c: char) -> bool {
    is_plain(c) || c == '%' || c == '+'
}

/// Every character of `t` is kept as it is by form encoding.
pub open spec fn plain_text(t: Seq<char>) -> bool {
    forall|i: int| 0 <= i < t.len() ==> is_plain(#[trigger] t[i])
}

/// Every character of `t` is one that form encoding may write.
pub open spec fn form_text(t: Seq<char>) -> bool {
    forall|i: int| 0 <= i < t.len() ==> is_form_char(#[trigger] t[i])
}

/// The bytes of a text whose characters are ASCII.
pub open spec fn ascii_bytes(t: Seq<char>) -> Seq<u8> {
    t.map_values(|c: char| c as u8)
}

/// The bytes of each of a list of ASCII texts.
pub open spec fn ascii_pieces(parts: Seq<Seq<char>>) -> Seq<Seq<u8>> {
    parts.map_values(|p: Seq<char>| ascii_bytes(p))
}

proof fn lemma_form_encoded_chars(b: Seq<u8>)
    ensures
        form_text(form_encoded(b)),
    decreases b.len(),
{
    if b.len() > 0 {
        lemma_form_encoded_chars(b.drop_last());
        let x = b.last();
        let piece = form_encoded_byte(x);
        assert(form_text(piece)) by {
            if form_unreserved(x) {
                assert(is_plain(x as char));
            } else if x != 32 {
                assert(is_plain(upper_hex_digit(x as int / 16)));
                assert(is_plain(upper_hex_digit(x as int % 16)));
            }
        }
        let front = form_encoded(b.drop_last());
        let whole = form_encoded(b);
        assert(whole == front + piece);
        assert forall|i: int| 0 <= i < whole.len() implies is_form_char(#[trigger] whole[i]) by {
            if i < front.len() {
                assert(whole[i] == front[i]);
            } else {
                assert(whole[i] == piece[i - front.len()]);
            }
        }
    }
}

proof fn lemma_form_encoded_plain(t: Seq<char>)
    requires
        plain_text(t),
    ensures
        form_encoded(ascii_bytes(t)) == t,
    decreases t.len(),
{
    if t.len() > 0 {
        let f = t.drop_last();
        assert(plain_text(f)) by {
            assert forall|i: int| 0 <= i < f.len() implies is_plain(#[trigger] f[i]) by {
                assert(f[i] == t[i]);
            }
        }
        lemma_form_encoded_plain(f);
        assert(ascii_bytes(t).drop_last() =~= ascii_bytes(f));
        let c = t.last();
        assert(is_plain(t[t.len() - 1]));
        assert(ascii_bytes(t).last() == c as u8);
        assert(form_unreserved(c as u8));
        assert((c as u8) as char == c);
        assert(form_encoded(ascii_bytes(t)) =~= f + seq![c]);
        assert(t =~= f + seq![c]);
    } else {
        assert(ascii_bytes(t) =~= Seq::<u8>::empty());
        assert(t =~= Seq::<char>::empty());
    }
}

proof fn lemma_params_form(segs: Seq<Seq<u8>>)
    ensures
        forall|i: int|
            0 <= i < params_of(segs).len() ==> form_text((#[trigger] params_of(segs)[i]).0)
                && form_text(params_of(segs)[i].1),
    decreases segs.len(),
{
    if segs.len() > 0 {
        lemma_params_form(segs.drop_last());
        let parts = split_on(segs.last(), EQUALS);
        if parts.len() == 2 {
            lemma_form_encoded_chars(parts[0]);
            lemma_form_encoded_chars(parts[1]);
        } else if parts.len() == 1 {
            lemma_form_encoded_chars(parts[0]);
        }
        let rest = params_of(segs.drop_last());
        assert forall|i: int| 0 <= i < params_of(segs).len() implies form_text(
            (#[trigger] params_of(segs)[i]).0,
        ) && form_text(params_of(segs)[i].1) by {
            if i < rest.len() {
                assert(params_of(segs)[i] == rest[i]);
            }
        }
    }
}

/// Every character of a part is a character of the joined text.
proof fn lemma_joined_holds_parts(parts: Seq<Seq<char>>, sep: Seq<char>, i: int, j: int)
    requires
        0 <= i < parts.len(),
        0 <= j < parts[i].len(),
    ensures
        joined(parts, sep).contains(parts[i][j]),
    decreases parts.len(),
{
    if parts.len() == 1 {
        assert(joined(parts, sep)[j] == parts[i][j]);
    } else {
        let front = joined(parts.drop_last(), sep);
        if i == parts.len() - 1 {
            let k = front.len() + sep.len() + j;
            assert(joined(parts, sep)[k] == parts[i][j]);
        } else {
            lemma_joined_holds_parts(parts.drop_last(), sep, i, j);
            let k = choose|k: int| 0 <= k < front.len() && front[k] == parts[i][j];
            assert(joined(parts, sep)[k] == parts[i][j]);
        }
    }
}

/// Joining ASCII parts with an ASCII separator gives ASCII text.
proof fn lemma_joined_ascii(parts: Seq<Seq<char>>, sep: Seq<char>)
    requires
        is_ascii_chars(sep),
        forall|i: int| 0 <= i < parts.len() ==> is_ascii_chars(#[trigger] parts[i]),
    ensures
        is_ascii_chars(joined(parts, sep)),
    decreases parts.len(),
{
    if parts.len() > 1 {
        let front = parts.drop_last();
        assert forall|i: int| 0 <= i < front.len() implies is_ascii_chars(#[trigger] front[i]) by {
            assert(front[i] == parts[i]);
        }
        lemma_joined_ascii(front, sep);
        assert(is_ascii_chars(parts[parts.len() - 1]));
        let j = joined(parts, sep);
        let a = joined(front, sep);
        assert forall|k: int| 0 <= k < j.len() implies '\0' <= #[trigger] j[k] <= '\u{7f}' by {
            if k < a.len() {
                assert(j[k] == a[k]);
            } else if k < a.len() + sep.len() {
                assert(j[k] == sep[k - a.len()]);
            } else {
                assert(j[k] == parts.last()[k - a.len() - sep.len()]);
            }
        }
    }
}

/// The bytes of joined ASCII texts are the joined bytes of the texts.
proof fn lemma_ascii_joined(parts: Seq<Seq<char>>, sep: char)
    ensures
        ascii_bytes(joined(parts, seq![sep])) == joined_bytes(ascii_pieces(parts), sep as u8),
    decreases parts.len(),
{
    if parts.len() == 0 {
        assert(ascii_bytes(Seq::<char>::empty()) =~= Seq::<u8>::empty());
    } else if parts.len() == 1 {
    } else {
        lemma_ascii_joined(parts.drop_last(), sep);
        assert(ascii_pieces(parts).drop_last() =~= ascii_pieces(parts.drop_last()));
        let a = joined(parts.drop_last(), seq![sep]);
        assert(ascii_bytes(a + seq![sep] + parts.last()) =~= ascii_bytes(a) + seq![sep as u8]
            + ascii_bytes(parts.last()));
    }
}

/// A plain entry stands for itself in its canonical text.
proof fn lemma_segment_of_plain_entry(e: Entry)
    requires
        plain_text(e.0),
        plain_text(e.1),
    ensures
        segment_param(ascii_bytes(param_text(e))) == Some(e),
{
    lemma_form_encoded_plain(e.0);
    lemma_form_encoded_plain(e.1);
    let a0 = ascii_bytes(e.0);
    let a1 = ascii_bytes(e.1);
    assert(!a0.contains(EQUALS)) by {
        if a0.contains(EQUALS) {
            let k = choose|k: int| 0 <= k < a0.len() && a0[k] == EQUALS;
            assert(is_plain(e.0[k]));
        }
    }
    assert(!a1.contains(EQUALS)) by {
        if a1.contains(EQUALS) {
            let k = choose|k: int| 0 <= k < a1.len() && a1[k] == EQUALS;
            assert(is_plain(e.1[k]));
        }
    }
    if e.1.len() == 0 {
        lemma_split_joined(seq![a0], EQUALS);
        assert(split_on(a0, EQUALS) == seq![a0]);
        assert(e.1 =~= Seq::<char>::empty());
    } else {
        reveal_strlit("=");
        assert("="@ =~= seq!['=']);
        assert(ascii_bytes(e.0 + "="@ + e.1) =~= a0 + seq![EQUALS] + a1);
        let parts = seq![a0, a1];
        assert(parts.drop_last() =~= seq![a0]);
        assert(seq![a0][0] == a0);
        assert(joined_bytes(seq![a0], EQUALS) == a0);
        assert(parts.last() == a1);
        assert(parts[0] == a0 && parts[1] == a1);
        assert(joined_bytes(parts, EQUALS) == a0 + seq![EQUALS] + a1);
        lemma_split_joined(parts, EQUALS);
    }
}

proof fn lemma_params_of_plain(p: Seq<Entry>)
    requires
        forall|i: int| 0 <= i < p.len() ==> plain_text((#[trigger] p[i]).0) && plain_text(p[i].1),
    ensures
        params_of(ascii_pieces(param_texts(p))) == p,
    decreases p.len(),
{
    if p.len() > 0 {
        let front = p.drop_last();
        assert forall|i: int| 0 <= i < front.len() implies plain_text((#[trigger] front[i]).0)
            && plain_text(front[i].1) by {
            assert(front[i] == p[i]);
        }
        lemma_params_of_plain(front);
        let pieces = ascii_pieces(param_texts(p));
        assert(pieces.drop_last() =~= ascii_pieces(param_texts(front)));
        assert(pieces.last() == ascii_bytes(param_text(p.last())));
        assert(plain_text(p[p.len() - 1].0) && plain_text(p[p.len() - 1].1));
        lemma_segment_of_plain_entry(p.last());
        assert(p =~= front.push(p.last()));
    } else {
        assert(ascii_pieces(param_texts(p)) =~= Seq::<Seq<u8>>::empty());
    }
}

/// The canonical text of a plain entry holds plain characters and `=`.
proof fn lemma_param_text_chars(e: Entry)
    requires
        plain_text(e.0),
        plain_text(e.1),
    ensures
        forall|k: int|
            0 <= k < param_text(e).len() ==> is_plain(#[trigger] param_text(e)[k])
                || param_text(e)[k] == '=',
{
    reveal_strlit("=");
    assert("="@ =~= seq!['=']);
    let t = param_text(e);
    assert forall|k: int| 0 <= k < t.len() implies is_plain(#[trigger] t[k]) || t[k] == '=' by {
        if k < e.0.len() {
            assert(t[k] == e.0[k]);
        } else if k > e.0.len() {
            assert(t[k] == e.1[k - e.0.len() - 1]);
        }
    }
}

/// Canonicalizing a canonical query string returns it unchanged, provided
/// it holds no `%` and no `+`: encoding those again would escape them.
pub proof fn lemma_canonical_query_idempotent(query: Seq<char>)
    requires
        !canonical_query(query).contains('%'),
        !canonical_query(query).contains('+'),
    ensures
        canonical_query(canonical_query(query)) == canonical_query(query),
{
    broadcast use vstd::seq_lib::group_to_multiset_ensures;

    let q0 = query_params(query);
    let p = sorted_entries(q0);
    let c = canonical_query(query);
    let texts = param_texts(p);
    reveal_strlit("&");
    assert("&"@ =~= seq!['&']);
    assert(c == joined(texts, "&"@));
    lemma_sorted_entries(q0);
    lemma_params_form(split_on(encode_utf8(query), AMPERSAND));
    assert forall|i: int| 0 <= i < p.len() implies plain_text((#[trigger] p[i]).0) && plain_text(
        p[i].1,
    ) by {
        assert(p.to_multiset().count(p[i]) > 0);
        assert(q0.contains(p[i]));
        let j = choose|j: int| 0 <= j < q0.len() && q0[j] == p[i];
        assert(form_text(q0[j].0) && form_text(q0[j].1));
        let e = p[i];
        let t = texts[i];
        assert(t == param_text(e));
        reveal_strlit("=");
        assert("="@ =~= seq!['=']);
        assert forall|k: int| 0 <= k < e.0.len() implies is_plain(#[trigger] e.0[k]) by {
            assert(t[k] == e.0[k]);
            lemma_joined_holds_parts(texts, "&"@, i, k);
            assert(is_form_char(e.0[k]));
        }
        assert forall|k: int| 0 <= k < e.1.len() implies is_plain(#[trigger] e.1[k]) by {
            assert(t[e.0.len() + 1 + k] == e.1[k]);
            lemma_joined_holds_parts(texts, "&"@, i, e.0.len() + 1 + k);
            assert(is_form_char(e.1[k]));
        }
    }
    if p.len() == 0 {
        assert(c =~= Seq::<char>::empty());
        assert(encode_utf8(c) =~= Seq::<u8>::empty());
        let none = Seq::<u8>::empty();
        assert(split_on(none, AMPERSAND) == seq![none]);
        assert(split_on(none, EQUALS) == seq![none]);
        assert(form_encoded(none) =~= Seq::<char>::empty());
        let x: Entry = (Seq::empty(), Seq::empty());
        assert(segment_param(none) == Some(x));
        assert(seq![none].drop_last() =~= Seq::<Seq<u8>>::empty());
        assert(seq![none].last() == none);
        assert(params_of(Seq::<Seq<u8>>::empty()) =~= Seq::<Entry>::empty());
        assert(params_of(seq![none]) == params_of(Seq::<Seq<u8>>::empty()).push(x));
        assert(params_of(seq![none]) =~= seq![x]);
        assert(seq![x].drop_last() =~= Seq::<Entry>::empty());
        assert(sorted_entries(Seq::<Entry>::empty()) =~= Seq::<Entry>::empty());
        assert(Seq::<Entry>::empty().insert(0, x) =~= seq![x]);
        assert(sorted_entries(seq![x]) == seq![x]);
        assert(param_texts(seq![x]) =~= seq![Seq::<char>::empty()]);
    } else {
        assert forall|i: int| 0 <= i < texts.len() implies is_ascii_chars(#[trigger] texts[i]) by {
            lemma_param_text_chars(p[i]);
            assert(texts[i] == param_text(p[i]));
        }
        assert(is_ascii_chars("&"@));
        lemma_joined_ascii(texts, "&"@);
        is_ascii_chars_encode_utf8(c);
        assert(encode_utf8(c) =~= ascii_bytes(c));
        lemma_ascii_joined(texts, '&');
        let pieces = ascii_pieces(texts);
        assert forall|i: int| 0 <= i < pieces.len() implies !(#[trigger] pieces[i]).contains(
            AMPERSAND,
        ) by {
            lemma_param_text_chars(p[i]);
            assert(texts[i] == param_text(p[i]));
            if pieces[i].contains(AMPERSAND) {
                let k = choose|k: int| 0 <= k < pieces[i].len() && pieces[i][k] == AMPERSAND;
                assert(pieces[i][k] == texts[i][k] as u8);
            }
        }
        lemma_split_joined(pieces, AMPERSAND);
        lemma_params_of_plain(p);
        assert(query_params(c) == p);
        lemma_sorted_entries(p);
        lemma_ordered_unique(sorted_entries(p), p);
    }
}

} // verus!
