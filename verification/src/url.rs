//! Query strings: percent-encoded parameters behind a URL.
use vstd::prelude::*;

use crate::text::join;

verus! {

/// Whether a byte stands for itself in a percent-encoded text: a letter, a digit
/// or one of `-`, `.`, `_`, `~`.
pub open spec fn unreserved(b: u8) -> bool {
    ||| 48 <= b <= 57
    ||| 65 <= b <= 90
    ||| 97 <= b <= 122
    ||| b == 45
    ||| b == 46
    ||| b == 95
    ||| b == 126
}

/// The upper case hexadecimal digit for a number below sixteen.
pub open spec fn upper_hex_digit(d: int) -> char {
    if d < 10 {
        (48 + d) as char
    } else {
        (55 + d) as char
    }
}

/// A byte, percent-encoded.
pub open spec fn encoded_byte(b: u8) -> Seq<char> {
    if unreserved(b) {
        seq![b as char]
    } else {
        seq!['%', upper_hex_digit(b as int / 16), upper_hex_digit(b as int % 16)]
    }
}

/// Bytes, percent-encoded one by one.
pub open spec fn encoded_bytes(bytes: Seq<u8>) -> Seq<char>
    decreases bytes.len(),
{
    if bytes.len() == 0 {
        Seq::empty()
    } else {
        encoded_byte(bytes[0]) + encoded_bytes(bytes.drop_first())
    }
}

/// The UTF-8 bytes of a text, percent-encoded.
pub open spec fn url_encoded(s: Seq<char>) -> Seq<char> {
    encoded_bytes(vstd::utf8::encode_utf8(s))
}

/// Calls `urlencoding::encode`, which percent-encodes every byte of the text but
/// ASCII letters, ASCII digits and `-`, `.`, `_`, `~`, with upper case digits.
#[verifier::external_body]
fn url_encode(s: &str) -> (r: String)
    ensures
        r@ == url_encoded(s@),
{
    urlencoding::encode(s).into_owned()
}

/// A parameter of a query: its name and its value.
pub type Parameter = (String, String);

/// The contents of a parameter.
pub open spec fn parameter_text(p: Parameter) -> (Seq<char>, Seq<char>) {
    (p.0@, p.1@)
}

/// The contents of a list of parameters.
pub open spec fn parameter_texts(list: Seq<Parameter>) -> Seq<(Seq<char>, Seq<char>)> {
    list.map_values(|p: Parameter| parameter_text(p))
}

/// How a query string spells one parameter.
pub open spec fn encoded_parameter(p: (Seq<char>, Seq<char>)) -> Seq<char> {
    url_encoded(p.0) + seq!['='] + url_encoded(p.1)
}

/// How a query string spells each of some parameters.
pub open spec fn encoded_parameters(list: Seq<(Seq<char>, Seq<char>)>) -> Seq<Seq<char>> {
    list.map_values(|p: (Seq<char>, Seq<char>)| encoded_parameter(p))
}

/// The query string of some parameters.
pub open spec fn query_text(list: Seq<(Seq<char>, Seq<char>)>) -> Seq<char> {
    crate::text::joined(encoded_parameters(list), seq!['&'])
}

/// `base` with some parameters behind it; `base` alone where there are none.
pub open spec fn url_with_query(base: Seq<char>, list: Seq<(Seq<char>, Seq<char>)>) -> Seq<char> {
    if list.len() == 0 {
        base
    } else {
        base + seq!['?'] + query_text(list)
    }
}

/// Writes the query string of some parameters.
pub fn query_string(list: &Vec<Parameter>) -> (r: String)
    ensures
        r@ == query_text(parameter_texts(list@)),
{
    let mut parts: Vec<String> = Vec::new();
    let mut i: usize = 0;
    while i < list.len()
        invariant
            i <= list@.len(),
            crate::text::texts(parts@) == encoded_parameters(parameter_texts(list@)).take(i as int),
        decreases list.len() - i,
    {
        let mut part: String = url_encode(list[i].0.as_str());
        part.append("=");
        part.append(url_encode(list[i].1.as_str()).as_str());
        proof {
            reveal_strlit("=");
            assert("="@ =~= seq!['=']);
            assert(part@ =~= encoded_parameter(parameter_text(list@[i as int])));
        }
        let ghost before = parts@;
        parts.push(part);
        assert(crate::text::texts(parts@) =~= crate::text::texts(before).push(part@));
        assert(crate::text::texts(parts@) =~= encoded_parameters(parameter_texts(list@)).take(i + 1));
        i = i + 1;
    }
    proof {
        reveal_strlit("&");
        assert("&"@ =~= seq!['&']);
        assert(crate::text::texts(parts@) =~= encoded_parameters(parameter_texts(list@)));
    }
    join(&parts, "&")
}

/// Puts a query behind a URL.
pub fn with_query(base: String, list: &Vec<Parameter>) -> (r: String)
    ensures
        r@ == url_with_query(base@, parameter_texts(list@)),
{
    if list.len() == 0 {
        base
    } else {
        let mut r: String = base;
        r.append("?");
        r.append(query_string(list).as_str());
        proof {
            reveal_strlit("?");
            assert("?"@ =~= seq!['?']);
        }
        r
    }
}

/// Whether a text holds neither of the two characters that structure a query.
spec fn separator_free(s: Seq<char>) -> bool {
    forall|i: int| 0 <= i < s.len() ==> #[trigger] s[i] != '&' && s[i] != '='
}

proof fn lemma_encoded_separator_free(bytes: Seq<u8>)
    ensures
        separator_free(encoded_bytes(bytes)),
    decreases bytes.len(),
{
    if bytes.len() > 0 {
        lemma_encoded_separator_free(bytes.drop_first());
        let head = encoded_byte(bytes[0]);
        let tail = encoded_bytes(bytes.drop_first());
        assert(separator_free(head));
        assert forall|i: int| 0 <= i < (head + tail).len() implies #[trigger] (head + tail)[i] != '&'
            && (head + tail)[i] != '=' by {
            if i >= head.len() {
                assert((head + tail)[i] == tail[i - head.len()]);
            } else {
                assert((head + tail)[i] == head[i]);
            }
        }
    }
}

proof fn lemma_encoded_bytes_injective(a: Seq<u8>, b: Seq<u8>)
    requires
        encoded_bytes(a) == encoded_bytes(b),
    ensures
        a == b,
    decreases a.len(),
{
    let ea = encoded_bytes(a);
    if a.len() == 0 {
        assert(b.len() == 0) by {
            if b.len() > 0 {
                assert(ea.len() >= encoded_byte(b[0]).len());
            }
        }
        assert(a =~= b);
    } else {
        assert(ea.len() >= encoded_byte(a[0]).len());
        assert(b.len() > 0);
        let ha = encoded_byte(a[0]);
        let hb = encoded_byte(b[0]);
        let ta = encoded_bytes(a.drop_first());
        let tb = encoded_bytes(b.drop_first());
        assert(ha + ta == hb + tb);
        assert((ha + ta)[0] == ha[0] && (hb + tb)[0] == hb[0]);
        if !unreserved(a[0]) {
            assert((ha + ta)[1] == ha[1] && (hb + tb)[1] == hb[1]);
            assert((ha + ta)[2] == ha[2] && (hb + tb)[2] == hb[2]);
        }
        assert(a[0] == b[0]);
        assert(ta =~= (ha + ta).skip(ha.len() as int));
        assert(tb =~= (hb + tb).skip(hb.len() as int));
        lemma_encoded_bytes_injective(a.drop_first(), b.drop_first());
        assert(a =~= seq![a[0]] + a.drop_first());
        assert(b =~= seq![b[0]] + b.drop_first());
    }
}

/// Percent-encoding loses nothing: texts that encode alike are alike.
pub proof fn law_url_encoding_is_injective(a: Seq<char>, b: Seq<char>)
    requires
        url_encoded(a) == url_encoded(b),
    ensures
        a == b,
{
    lemma_encoded_bytes_injective(vstd::utf8::encode_utf8(a), vstd::utf8::encode_utf8(b));
    vstd::utf8::encode_utf8_decode_utf8(a);
    vstd::utf8::encode_utf8_decode_utf8(b);
}

proof fn lemma_encoded_parameter_injective(
    a: (Seq<char>, Seq<char>),
    b: (Seq<char>, Seq<char>),
)
    requires
        encoded_parameter(a) == encoded_parameter(b),
    ensures
        a == b,
{
    let (ka, va, kb, vb) = (url_encoded(a.0), url_encoded(a.1), url_encoded(b.0), url_encoded(b.1));
    lemma_encoded_separator_free(vstd::utf8::encode_utf8(a.0));
    lemma_encoded_separator_free(vstd::utf8::encode_utf8(a.1));
    lemma_encoded_separator_free(vstd::utf8::encode_utf8(b.0));
    lemma_encoded_separator_free(vstd::utf8::encode_utf8(b.1));
    let t = encoded_parameter(a);
    assert(t[ka.len() as int] == '=');
    assert(t[kb.len() as int] == '=');
    if ka.len() < kb.len() {
        assert(t[ka.len() as int] == kb[ka.len() as int]);
    } else if kb.len() < ka.len() {
        assert(t[kb.len() as int] == ka[kb.len() as int]);
    }
    assert(ka =~= t.take(ka.len() as int));
    assert(kb =~= t.take(kb.len() as int));
    assert(va =~= t.skip(ka.len() as int + 1));
    assert(vb =~= t.skip(kb.len() as int + 1));
    law_url_encoding_is_injective(a.0, b.0);
    law_url_encoding_is_injective(a.1, b.1);
}

proof fn lemma_encoded_parameter_shape(p: (Seq<char>, Seq<char>))
    ensures
        encoded_parameter(p).len() > 0,
        forall|i: int|
            0 <= i < encoded_parameter(p).len() ==> #[trigger] encoded_parameter(p)[i] != '&',
{
    lemma_encoded_separator_free(vstd::utf8::encode_utf8(p.0));
    lemma_encoded_separator_free(vstd::utf8::encode_utf8(p.1));
    let k = url_encoded(p.0);
    let v = url_encoded(p.1);
    assert forall|i: int| 0 <= i < encoded_parameter(p).len() implies #[trigger] encoded_parameter(
        p,
    )[i] != '&' by {
        if i < k.len() {
            assert(encoded_parameter(p)[i] == k[i]);
        } else if i > k.len() {
            assert(encoded_parameter(p)[i] == v[i - k.len() - 1]);
        }
    }
}

/// A query string tells its parameters: lists that spell the same query are the
/// same list.
pub proof fn law_query_tells_its_parameters(
    a: Seq<(Seq<char>, Seq<char>)>,
    b: Seq<(Seq<char>, Seq<char>)>,
)
    requires
        query_text(a) == query_text(b),
    ensures
        a == b,
    decreases a.len(),
{
    let ea = encoded_parameters(a);
    let eb = encoded_parameters(b);
    let t = query_text(a);
    if a.len() > 0 {
        lemma_encoded_parameter_shape(a.last());
        assert(ea.last() == encoded_parameter(a.last()));
    }
    if b.len() > 0 {
        lemma_encoded_parameter_shape(b.last());
        assert(eb.last() == encoded_parameter(b.last()));
    }
    if a.len() == 0 || b.len() == 0 {
        assert(a =~= b);
    } else {
        let la = ea.last();
        let lb = eb.last();
        // Where a list has two parameters or more, the last `&` of the text is
        // the one before its last parameter.
        assert(a.len() > 1 ==> t[t.len() - la.len() - 1] == '&');
        assert(b.len() > 1 ==> t[t.len() - lb.len() - 1] == '&');
        assert(la =~= t.skip(t.len() - la.len()));
        assert(lb =~= t.skip(t.len() - lb.len()));
        if la.len() < lb.len() {
            assert(a.len() > 1);
            assert(t[t.len() - la.len() - 1] == lb[lb.len() - la.len() - 1]);
            assert(false);
        }
        if lb.len() < la.len() {
            assert(b.len() > 1);
            assert(t[t.len() - lb.len() - 1] == la[la.len() - lb.len() - 1]);
            assert(false);
        }
        lemma_encoded_parameter_injective(a.last(), b.last());
        if a.len() == 1 || b.len() == 1 {
            assert(t.len() == la.len());
            assert(a =~= b);
        } else {
            assert(ea.drop_last() =~= encoded_parameters(a.drop_last()));
            assert(eb.drop_last() =~= encoded_parameters(b.drop_last()));
            assert(query_text(a.drop_last()) =~= t.take(t.len() - la.len() - 1));
            assert(query_text(b.drop_last()) =~= t.take(t.len() - lb.len() - 1));
            law_query_tells_its_parameters(a.drop_last(), b.drop_last());
            assert(a =~= a.drop_last().push(a.last()));
            assert(b =~= b.drop_last().push(b.last()));
        }
    }
}

/// A URL tells the query behind it: over one base, lists that make the same URL are
/// the same list.
pub proof fn law_url_tells_its_query(
    base: Seq<char>,
    a: Seq<(Seq<char>, Seq<char>)>,
    b: Seq<(Seq<char>, Seq<char>)>,
)
    requires
        url_with_query(base, a) == url_with_query(base, b),
    ensures
        a == b,
{
    let t = url_with_query(base, a);
    if a.len() == 0 || b.len() == 0 {
        assert(a =~= b);
    } else {
        assert(query_text(a) =~= t.skip(base.len() as int + 1));
        assert(query_text(b) =~= t.skip(base.len() as int + 1));
        law_query_tells_its_parameters(a, b);
    }
}

} // verus!
