//! How numbers, lists, queries, identifiers and statuses are spelled and read.
use vstd::prelude::*;

use crate::http::HttpCallView;
use crate::search_client::Accepts;

verus! {

proof fn lemma_digits_of_both(a: Seq<char>, b: Seq<char>)
    ensures
        crate::text::digits_value(a + b) == crate::text::digits_value(a)
            * vstd::arithmetic::power::pow(10, b.len()) + crate::text::digits_value(b),
    decreases b.len(),
{
    if b.len() == 0 {
        assert(a + b =~= a);
        vstd::arithmetic::power::lemma_pow0(10);
    } else {
        let c = b.drop_last();
        lemma_digits_of_both(a, c);
        assert((a + b).drop_last() =~= a + c);
        assert((a + b).last() == b.last());
        vstd::arithmetic::power::lemma_pow_adds(10, c.len(), 1);
        vstd::arithmetic::power::lemma_pow1(10);
        let x = crate::text::digits_value(a) as int;
        let p = vstd::arithmetic::power::pow(10, c.len());
        assert(vstd::arithmetic::power::pow(10, b.len()) == p * 10);
        assert((x * p) * 10 == x * (p * 10)) by (nonlinear_arith);
    }
}

/// Digits count by their place: what stands before some digits counts for as many
/// tens as there are digits behind it.
pub proof fn law_digits_count_by_their_place(a: Seq<char>, b: Seq<char>, c: char)
    ensures
        crate::text::digits_value(a + b) == crate::text::digits_value(a)
            * vstd::arithmetic::power::pow(10, b.len()) + crate::text::digits_value(b),
        '0' <= c <= '9' ==> crate::text::digits_value(seq![c]) == c as int - '0' as int,
        crate::text::digits_value(Seq::empty()) == 0,
{
    lemma_digits_of_both(a, b);
    assert(seq![c].drop_last() =~= Seq::<char>::empty());
    assert(crate::text::digits_value(Seq::<char>::empty()) == 0);
}

proof fn lemma_no_leading_zero(n: nat)
    requires
        n > 0,
    ensures
        crate::text::decimal(n)[0] != '0',
    decreases n,
{
    if n >= 10 {
        lemma_no_leading_zero(n / 10);
        crate::text::lemma_decimal_digits(n / 10);
        assert(crate::text::decimal(n)[0] == crate::text::decimal(n / 10)[0]);
    }
}

/// A numeral is made of decimal digits, starts with a zero only where it is the zero,
/// and its digits stand for the number.
pub proof fn law_numerals(n: nat, i: int)
    requires
        0 <= i < crate::text::decimal(n).len(),
    ensures
        crate::text::decimal(n).len() > 0,
        '0' <= crate::text::decimal(n)[i] <= '9',
        n > 0 ==> crate::text::decimal(n)[0] != '0',
        n == 0 ==> crate::text::decimal(n) == seq!['0'],
        crate::text::digits_value(crate::text::decimal(n)) == n,
{
    crate::text::lemma_decimal_digits(n);
    if n > 0 {
        lemma_no_leading_zero(n);
    }
}

/// Some digits, with or without a plus sign before them, are read as the number that
/// they stand for, or as none where it is too large.
pub proof fn law_digits_are_read(s: Seq<char>)
    requires
        s.len() > 0,
        forall|i: int| 0 <= i < s.len() ==> '0' <= #[trigger] s[i] && s[i] <= '9',
    ensures
        crate::text::digits_value(s) <= u64::MAX ==> {
            &&& crate::text::number(s) == Some(crate::text::digits_value(s) as u64)
            &&& crate::text::number(seq!['+'] + s) == Some(crate::text::digits_value(s) as u64)
        },
        crate::text::digits_value(s) > u64::MAX ==> {
            &&& crate::text::number(s) is None
            &&& crate::text::number(seq!['+'] + s) is None
        },
{
    assert('0' <= s[0]);
    assert((seq!['+'] + s).skip(1) =~= s);
}

/// Any character but a digit, save for a plus sign at the start, makes a text no
/// number; so does the want of digits.
pub proof fn law_other_texts_are_no_numbers(s: Seq<char>, i: int)
    ensures
        0 <= i < s.len() && !('0' <= s[i] <= '9') && !(i == 0 && s[i] == '+')
            ==> crate::text::number(s) is None,
        s.len() == 0 ==> crate::text::number(s) is None,
        s == seq!['+'] ==> crate::text::number(s) is None,
{
    if 0 <= i < s.len() && !('0' <= s[i] <= '9') && !(i == 0 && s[i] == '+') {
        let d = crate::text::numeral_digits(s);
        if s[0] == '+' {
            assert(d[i - 1] == s[i]);
        } else {
            assert(d[i] == s[i]);
        }
    }
}

/// What is left of a text without the slashes that it ends in is what stands before
/// them.
pub proof fn law_slashes_at_the_end_are_dropped(core: Seq<char>, count: nat)
    requires
        core.len() > 0 ==> core.last() != '/',
    ensures
        crate::text::trim_slashes(core + Seq::new(count, |i: int| '/')) == core,
{
    crate::text::law_trailing_slashes_do_not_matter(core, count);
}

/// Lists join to what their halves join to, with the separator between them.
pub proof fn law_joined_lists(
    a: Seq<Seq<char>>,
    b: Seq<Seq<char>>,
    s: Seq<char>,
    sep: Seq<char>,
)
    ensures
        crate::text::joined(Seq::empty(), sep) == Seq::<char>::empty(),
        crate::text::joined(seq![s], sep) == s,
        a.len() > 0 && b.len() > 0 ==> crate::text::joined(a + b, sep) == crate::text::joined(
            a,
            sep,
        ) + sep + crate::text::joined(b, sep),
    decreases b.len(),
{
    if a.len() > 0 && b.len() > 0 {
        assert((a + b).drop_last() =~= a + b.drop_last());
        assert((a + b).last() == b.last());
        if b.len() == 1 {
            assert(a + b.drop_last() =~= a);
        } else {
            law_joined_lists(a, b.drop_last(), s, sep);
        }
        assert(crate::text::joined(a + b, sep) =~= crate::text::joined(a, sep) + sep
            + crate::text::joined(b, sep));
    }
}

/// A query spells each parameter as its encoded name, an equals sign and its encoded
/// value, and has ampersands between them.
pub proof fn law_spelling_of_queries(
    a: Seq<(Seq<char>, Seq<char>)>,
    b: Seq<(Seq<char>, Seq<char>)>,
    name: Seq<char>,
    value: Seq<char>,
)
    ensures
        crate::url::query_text(seq![(name, value)]) == crate::url::url_encoded(name) + seq!['=']
            + crate::url::url_encoded(value),
        a.len() > 0 && b.len() > 0 ==> crate::url::query_text(a + b) == crate::url::query_text(a)
            + seq!['&'] + crate::url::query_text(b),
{
    let one = seq![(name, value)];
    assert(crate::url::encoded_parameters(one)[0] == crate::url::encoded_parameter((name, value)));
    assert(crate::url::encoded_parameters(a + b) =~= crate::url::encoded_parameters(a)
        + crate::url::encoded_parameters(b));
    law_joined_lists(
        crate::url::encoded_parameters(a),
        crate::url::encoded_parameters(b),
        Seq::empty(),
        seq!['&'],
    );
}

/// A query stands behind its URL after a question mark, and without parameters there
/// is neither.
pub proof fn law_place_of_queries(base: Seq<char>, list: Seq<(Seq<char>, Seq<char>)>)
    ensures
        crate::url::url_with_query(base, Seq::empty()) == base,
        list.len() > 0 ==> crate::url::url_with_query(base, list) == base + seq!['?']
            + crate::url::query_text(list),
{
}

/// A byte that is a letter, a digit or one of `-._~` is itself in an encoded text; of
/// any other, the text has a percent sign and the two digits of its value. What is
/// encoded of a text is its bytes in UTF-8.
pub proof fn law_encoding_of_a_byte(b: u8, rest: Seq<u8>, text: Seq<char>)
    ensures
        crate::url::url_encoded(text) == crate::url::encoded_bytes(vstd::utf8::encode_utf8(text)),
        crate::url::encoded_bytes(Seq::empty()).len() == 0,
        ('0' as u8 <= b <= '9' as u8 || 'A' as u8 <= b <= 'Z' as u8 || 'a' as u8 <= b <= 'z' as u8
            || b == '-' as u8 || b == '.' as u8 || b == '_' as u8 || b == '~' as u8)
            ==> crate::url::encoded_bytes(seq![b] + rest) == seq![b as char]
            + crate::url::encoded_bytes(rest),
        !('0' as u8 <= b <= '9' as u8 || 'A' as u8 <= b <= 'Z' as u8 || 'a' as u8 <= b <= 'z' as u8
            || b == '-' as u8 || b == '.' as u8 || b == '_' as u8 || b == '~' as u8) ==> {
            let e = crate::url::encoded_bytes(seq![b] + rest);
            &&& e.len() == 3 + crate::url::encoded_bytes(rest).len()
            &&& e[0] == '%'
            &&& e.skip(3) == crate::url::encoded_bytes(rest)
            &&& crate::event_id::is_hex_digit(e[1]) && !('a' <= e[1] <= 'f')
            &&& crate::event_id::is_hex_digit(e[2]) && !('a' <= e[2] <= 'f')
            &&& 16 * crate::event_id::hex_digit_value(e[1]) + crate::event_id::hex_digit_value(
                e[2],
            ) == b
        },
{
    let all = seq![b] + rest;
    assert(all.drop_first() =~= rest);
    assert(all[0] == b);
    let head = crate::url::encoded_byte(b);
    let tail = crate::url::encoded_bytes(rest);
    assert(crate::url::encoded_bytes(all) == head + tail);
    if head.len() == 3 {
        assert((head + tail).skip(3) =~= tail);
    }
}

/// A text is an identifier exactly where it is sixty-four hexadecimal digits; each
/// byte is two of them, the high one first.
pub proof fn law_identifiers(s: Seq<char>, i: int)
    ensures
        crate::event_id::event_id(s) is Some <==> s.len() == 64 && (forall|k: int|
            0 <= k < s.len() ==> ('0' <= #[trigger] s[k] <= '9' || 'a' <= s[k] <= 'f' || 'A'
                <= s[k] <= 'F')),
        crate::event_id::event_id(s) matches Some(id) ==> id.len() == 32 && (0 <= i < 32 ==> id[i]
            == 16 * crate::event_id::hex_digit_value(s[2 * i]) + crate::event_id::hex_digit_value(
            s[2 * i + 1],
        )),
{
    if crate::event_id::event_id(s) is Some && 0 <= i < 32 {
        assert(crate::event_id::is_hex_digit(s[2 * i]));
        assert(crate::event_id::is_hex_digit(s[2 * i + 1]));
    }
    if s.len() == 64 && (forall|k: int|
        0 <= k < s.len() ==> ('0' <= #[trigger] s[k] <= '9' || 'a' <= s[k] <= 'f' || 'A' <= s[k]
            <= 'F')) {
        assert(forall|k: int| 0 <= k < s.len() ==> crate::event_id::is_hex_digit(#[trigger] s[k]));
    }
}

/// The digits from zero to nine and from `a` to `f`, of either case, count from
/// zero to fifteen.
pub proof fn law_values_of_digits(c: char)
    ensures
        '0' <= c <= '9' ==> crate::event_id::hex_digit_value(c) == c as int - 48,
        'a' <= c <= 'f' ==> crate::event_id::hex_digit_value(c) == c as int - 87,
        'A' <= c <= 'F' ==> crate::event_id::hex_digit_value(c) == c as int - 55,
{
}

/// The identifiers of a list are those of its halves, one after the other; a single
/// text has itself, if it is one.
pub proof fn law_identifiers_of_lists(a: Seq<Seq<char>>, b: Seq<Seq<char>>, s: Seq<char>)
    ensures
        crate::event_id::event_ids(a + b) == crate::event_id::event_ids(a)
            + crate::event_id::event_ids(b),
        crate::event_id::event_id(s) is None ==> crate::event_id::event_ids(seq![s]).len() == 0,
        crate::event_id::event_id(s) matches Some(id) ==> crate::event_id::event_ids(seq![s])
            == seq![id],
        crate::event_id::event_ids(Seq::empty()).len() == 0,
    decreases b.len(),
{
    assert(seq![s].drop_last() =~= Seq::<Seq<char>>::empty());
    assert(crate::event_id::event_ids(Seq::<Seq<char>>::empty()) =~= Seq::<Seq<u8>>::empty());
    if crate::event_id::event_id(s) is Some {
        assert(crate::event_id::event_ids(seq![s]) =~= seq![crate::event_id::event_id(s)->0]);
    }
    if b.len() == 0 {
        assert(a + b =~= a);
        assert(crate::event_id::event_ids(a + b) =~= crate::event_id::event_ids(a)
            + crate::event_id::event_ids(b));
    } else {
        law_identifiers_of_lists(a, b.drop_last(), s);
        assert((a + b).drop_last() =~= a + b.drop_last());
        assert((a + b).last() == b.last());
        assert(crate::event_id::event_ids(a + b) =~= crate::event_id::event_ids(a)
            + crate::event_id::event_ids(b));
    }
}

/// A status is a success where its first digit is a two; the awaited requests take
/// any success, the others the plain one alone.
pub proof fn law_accepted_statuses(code: u16)
    ensures
        crate::http::successful(code) <==> code / 100 == 2,
        crate::search_client::accepted(Accepts::AnySuccess, code) <==> code / 100 == 2,
        crate::search_client::accepted(Accepts::OkOnly, code) <==> code == 200,
        crate::http::is_status(code) <==> code / 100 >= 1 && code / 1000 == 0,
{
}

/// A status is printed as its number, a space and its reason.
pub proof fn law_printed_statuses(code: u16)
    ensures
        crate::http::status_line(code).len() == crate::text::decimal(code as nat).len() + 1
            + crate::http::status_reason(code).len(),
        crate::http::status_line(code).take(crate::text::decimal(code as nat).len() as int)
            == crate::text::decimal(code as nat),
        crate::http::status_line(code)[crate::text::decimal(code as nat).len() as int] == ' ',
        crate::http::status_line(code).skip(crate::text::decimal(code as nat).len() as int + 1)
            == crate::http::status_reason(code),
{
    let d = crate::text::decimal(code as nat);
    assert(crate::http::status_line(code).take(d.len() as int) =~= d);
    assert(crate::http::status_line(code).skip(d.len() as int + 1) =~= crate::http::status_reason(
        code,
    ));
}

/// A request goes out as JSON exactly where it has a body.
pub proof fn law_bodies_are_json(call: HttpCallView)
    ensures
        call.body is Some ==> call.content_type() == Some("application/json"@),
        call.body is None ==> call.content_type() is None,
{
}

proof fn lemma_escaped_both(a: Seq<char>, b: Seq<char>)
    ensures
        crate::json::escaped(a + b) == crate::json::escaped(a) + crate::json::escaped(b),
    decreases a.len(),
{
    if a.len() == 0 {
        assert(a + b =~= b);
        assert(crate::json::escaped(a) + crate::json::escaped(b) =~= crate::json::escaped(b));
    } else {
        lemma_escaped_both(a.drop_first(), b);
        assert((a + b).drop_first() =~= a.drop_first() + b);
        assert((a + b)[0] == a[0]);
        assert(crate::json::escaped(a + b) =~= crate::json::escaped(a) + crate::json::escaped(b));
    }
}

/// A JSON string is its characters, one after the other, between double quotes. A
/// quote and a backslash have a backslash before them, what is below the space is
/// escaped by a letter or by the digits of its number, and all else is itself.
pub proof fn law_json_strings(a: Seq<char>, b: Seq<char>, c: char)
    ensures
        crate::json::quoted(a).len() >= 2,
        crate::json::quoted(a)[0] == '"',
        crate::json::quoted(a).last() == '"',
        crate::json::quoted(Seq::empty()) == seq!['"', '"'],
        crate::json::quoted(a + b) == crate::json::quoted(a).drop_last()
            + crate::json::quoted(b).drop_first(),
        c == '"' || c == '\\' ==> crate::json::quoted(seq![c]) == seq!['"', '\\', c, '"'],
        c as int == 8 ==> crate::json::quoted(seq![c]) == seq!['"', '\\', 'b', '"'],
        c as int == 9 ==> crate::json::quoted(seq![c]) == seq!['"', '\\', 't', '"'],
        c as int == 10 ==> crate::json::quoted(seq![c]) == seq!['"', '\\', 'n', '"'],
        c as int == 12 ==> crate::json::quoted(seq![c]) == seq!['"', '\\', 'f', '"'],
        c as int == 13 ==> crate::json::quoted(seq![c]) == seq!['"', '\\', 'r', '"'],
        (c as int) < 8 || c as int == 11 || 14 <= (c as int) <= 31 ==> {
            let q = crate::json::quoted(seq![c]);
            &&& q.len() == 8
            &&& q.take(5) == seq!['"', '\\', 'u', '0', '0']
            &&& crate::event_id::is_hex_digit(q[5]) && !('A' <= q[5] <= 'F')
            &&& crate::event_id::is_hex_digit(q[6]) && !('A' <= q[6] <= 'F')
            &&& 16 * crate::event_id::hex_digit_value(q[5]) + crate::event_id::hex_digit_value(
                q[6],
            ) == c as int
        },
        c as int >= 32 && c != '"' && c != '\\' ==> crate::json::quoted(seq![c]) == seq![
            '"',
            c,
            '"',
        ],
{
    lemma_escaped_both(a, b);
    assert(crate::json::escaped(Seq::<char>::empty()) =~= Seq::<char>::empty());
    assert(crate::json::quoted(Seq::<char>::empty()) =~= seq!['"', '"']);
    assert(crate::json::quoted(a + b) =~= crate::json::quoted(a).drop_last()
        + crate::json::quoted(b).drop_first());
    assert(seq![c].drop_first() =~= Seq::<char>::empty());
    assert(crate::json::escaped(seq![c]) =~= crate::json::escaped_char(c));
    let q = crate::json::quoted(seq![c]);
    assert(q =~= seq!['"'] + crate::json::escaped_char(c) + seq!['"']);
    if q.len() == 8 {
        assert(q.take(5) =~= seq!['"', '\\', 'u', '0', '0']);
    }
}

/// A JSON array is its elements between square brackets, with commas between them.
pub proof fn law_json_arrays(a: Seq<Seq<char>>, b: Seq<Seq<char>>, item: Seq<char>)
    ensures
        crate::json::array(Seq::empty()) == seq!['[', ']'],
        crate::json::array(seq![item]) == seq!['['] + item + seq![']'],
        a.len() > 0 && b.len() > 0 ==> crate::json::array(a + b) == crate::json::array(
            a,
        ).drop_last() + seq![','] + crate::json::array(b).drop_first(),
{
    law_joined_lists(a, b, item, seq![',']);
    assert(crate::json::array(Seq::<Seq<char>>::empty()) =~= seq!['[', ']']);
    if a.len() > 0 && b.len() > 0 {
        assert(crate::json::array(a + b) =~= crate::json::array(a).drop_last() + seq![',']
            + crate::json::array(b).drop_first());
    }
}

/// A JSON array of strings has each of them, quoted, in its place; what is absent is
/// written as `null`, what is there as itself.
pub proof fn law_json_values(
    lists: Seq<Seq<Seq<char>>>,
    list: Seq<Seq<char>>,
    s: Seq<char>,
    n: nat,
)
    ensures
        crate::json::string_array(list) == crate::json::array(
            Seq::new(list.len(), |i: int| crate::json::quoted(list[i])),
        ),
        crate::json::string_arrays_or_null(Some(lists)) == crate::json::array(
            Seq::new(lists.len(), |i: int| crate::json::string_array(lists[i])),
        ),
        crate::json::string_arrays_or_null(None) == "null"@,
        crate::json::string_or_null(Some(s)) == crate::json::quoted(s),
        crate::json::string_or_null(None) == "null"@,
        crate::json::number_or_null(Some(n)) == crate::text::decimal(n),
        crate::json::number_or_null(None) == "null"@,
{
    reveal_strlit("null");
    assert("null"@ =~= seq!['n', 'u', 'l', 'l']);
    assert(list.map_values(|s: Seq<char>| crate::json::quoted(s)) =~= Seq::new(
        list.len(),
        |i: int| crate::json::quoted(list[i]),
    ));
    assert(lists.map_values(|l: Seq<Seq<char>>| crate::json::string_array(l)) =~= Seq::new(
        lists.len(),
        |i: int| crate::json::string_array(lists[i]),
    ));
}

} // verus!
