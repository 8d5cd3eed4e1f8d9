//! JSON texts: what is read out of them, and how strings, numbers and lists are
//! written into them.
use vstd::prelude::*;

use crate::text::{decimal_text, join};

verus! {

/// The lower case hexadecimal digit for a number below sixteen.
pub open spec fn lower_hex_digit(d: int) -> char {
    if d < 10 {
        (48 + d) as char
    } else {
        (87 + d) as char
    }
}

/// How a JSON string spells one character.
pub open spec fn escaped_char(c: char) -> Seq<char> {
    if c == '"' {
        seq!['\\', '"']
    } else if c == '\\' {
        seq!['\\', '\\']
    } else if c == '\u{8}' {
        seq!['\\', 'b']
    } else if c == '\t' {
        seq!['\\', 't']
    } else if c == '\n' {
        seq!['\\', 'n']
    } else if c == '\u{c}' {
        seq!['\\', 'f']
    } else if c == '\r' {
        seq!['\\', 'r']
    } else if (c as int) < 32 {
        seq!['\\', 'u', '0', '0', lower_hex_digit(c as int / 16), lower_hex_digit(c as int % 16)]
    } else {
        seq![c]
    }
}

/// How a JSON string spells its characters.
pub open spec fn escaped(s: Seq<char>) -> Seq<char>
    decreases s.len(),
{
    if s.len() == 0 {
        Seq::empty()
    } else {
        escaped_char(s[0]) + escaped(s.drop_first())
    }
}

/// The JSON string that holds `s`.
pub open spec fn quoted(s: Seq<char>) -> Seq<char> {
    seq!['"'] + escaped(s) + seq!['"']
}

/// Prints a `serde_json::Value` that holds `s`: the text in double quotes, with
/// `"`, `\` and the characters below U+0020 escaped, the others as they are.
#[verifier::external_body]
pub(crate) fn quote(s: &str) -> (r: String)
    ensures
        r@ == quoted(s@),
{
    serde_json::Value::from(s).to_string()
}

/// The compact print of the JSON value that a text spells, if it spells one: what
/// `serde_json::from_str` reads, printed.
pub uninterp spec fn json_text(text: Seq<char>) -> Option<Seq<char>>;

/// Reads a JSON value with `serde_json::from_str` and prints it again.
#[verifier::external_body]
pub(crate) fn read_json(text: &str) -> (r: Option<String>)
    ensures
        match r {
            Some(s) => json_text(text@) == Some(s@),
            None => json_text(text@) is None,
        },
{
    serde_json::from_str::<serde_json::Value>(text).ok().map(|v| v.to_string())
}

/// The compact prints of the elements of the JSON array that a text spells, if it
/// spells one: what `serde_json::from_str` reads, each element printed.
pub uninterp spec fn json_items(text: Seq<char>) -> Option<Seq<Seq<char>>>;

/// Reads a JSON array with `serde_json::from_str` and prints its elements.
#[verifier::external_body]
pub(crate) fn read_items(text: &str) -> (r: Option<Vec<String>>)
    ensures
        match r {
            Some(v) => json_items(text@) == Some(crate::text::texts(v@)),
            None => json_items(text@) is None,
        },
{
    let value = serde_json::from_str::<serde_json::Value>(text).ok()?;
    let items = value.as_array()?;
    Some(items.iter().map(|v| v.to_string()).collect())
}

/// The string that is the member `key` of the JSON object that a text spells, if
/// it spells an object with such a member: what `serde_json::from_str` reads, then
/// `Value::get` and `Value::as_str`.
pub uninterp spec fn json_str_member(text: Seq<char>, key: Seq<char>) -> Option<Seq<char>>;

/// Reads a string member of a JSON object.
#[verifier::external_body]
pub(crate) fn read_str_member(text: &str, key: &str) -> (r: Option<String>)
    ensures
        match r {
            Some(s) => json_str_member(text@, key@) == Some(s@),
            None => json_str_member(text@, key@) is None,
        },
{
    let value = serde_json::from_str::<serde_json::Value>(text).ok()?;
    let member = value.get(key)?.as_str()?;
    Some(member.to_owned())
}

/// The JSON value that stands for an absent one.
pub open spec fn null_text() -> Seq<char> {
    seq!['n', 'u', 'l', 'l']
}

/// A number, or `null`.
pub open spec fn number_or_null(n: Option<nat>) -> Seq<char> {
    match n {
        Some(n) => crate::text::decimal(n),
        None => null_text(),
    }
}

/// A string, or `null`.
pub open spec fn string_or_null(s: Option<Seq<char>>) -> Seq<char> {
    match s {
        Some(s) => quoted(s),
        None => null_text(),
    }
}

/// A JSON array of the given elements.
pub open spec fn array(items: Seq<Seq<char>>) -> Seq<char> {
    seq!['['] + crate::text::joined(items, seq![',']) + seq![']']
}

/// A JSON array of strings.
pub open spec fn string_array(list: Seq<Seq<char>>) -> Seq<char> {
    array(list.map_values(|s: Seq<char>| quoted(s)))
}

/// A JSON array of arrays of strings, or `null`.
pub open spec fn string_arrays_or_null(lists: Option<Seq<Seq<Seq<char>>>>) -> Seq<char> {
    match lists {
        Some(lists) => array(lists.map_values(|l: Seq<Seq<char>>| string_array(l))),
        None => null_text(),
    }
}

/// Writes `null`.
fn write_null() -> (r: String)
    ensures
        r@ == null_text(),
{
    proof {
        reveal_strlit("null");
        assert("null"@ =~= null_text());
    }
    "null".to_owned()
}

/// Writes a number or `null`.
pub fn write_number(n: Option<u64>) -> (r: String)
    ensures
        r@ == number_or_null(
            match n {
                Some(n) => Some(n as nat),
                None => None,
            },
        ),
{
    match n {
        Some(n) => decimal_text(n),
        None => write_null(),
    }
}

/// Writes a string or `null`.
pub fn write_string(s: &Option<String>) -> (r: String)
    ensures
        r@ == string_or_null(crate::text::opt_text(*s)),
{
    match s {
        Some(s) => quote(s.as_str()),
        None => write_null(),
    }
}

/// Writes an array of elements that are JSON texts already.
fn write_array(items: &Vec<String>) -> (r: String)
    ensures
        r@ == array(crate::text::texts(items@)),
{
    let mut r: String = "[".to_owned();
    r.append(join(items, ",").as_str());
    r.append("]");
    proof {
        reveal_strlit("[");
        reveal_strlit(",");
        reveal_strlit("]");
        assert("["@ =~= seq!['[']);
        assert(","@ =~= seq![',']);
        assert("]"@ =~= seq![']']);
    }
    r
}

/// Writes an array of strings.
pub fn write_strings(list: &Vec<String>) -> (r: String)
    ensures
        r@ == string_array(crate::text::texts(list@)),
{
    let ghost goal = crate::text::texts(list@).map_values(|s: Seq<char>| quoted(s));
    let mut items: Vec<String> = Vec::new();
    let mut i: usize = 0;
    while i < list.len()
        invariant
            i <= list@.len(),
            goal == crate::text::texts(list@).map_values(|s: Seq<char>| quoted(s)),
            crate::text::texts(items@) == goal.take(i as int),
        decreases list.len() - i,
    {
        let ghost before = items@;
        items.push(quote(list[i].as_str()));
        assert(crate::text::texts(items@) =~= crate::text::texts(before).push(goal[i as int]));
        assert(crate::text::texts(items@) =~= goal.take(i + 1));
        i = i + 1;
    }
    assert(crate::text::texts(items@) =~= goal);
    write_array(&items)
}

/// The contents of lists of strings.
pub open spec fn lists_texts(lists: Seq<Vec<String>>) -> Seq<Seq<Seq<char>>> {
    lists.map_values(|l: Vec<String>| crate::text::texts(l@))
}

/// Writes an array of arrays of strings, or `null`.
pub fn write_string_lists(lists: &Option<Vec<Vec<String>>>) -> (r: String)
    ensures
        r@ == string_arrays_or_null(
            match *lists {
                Some(l) => Some(lists_texts(l@)),
                None => None,
            },
        ),
{
    match lists {
        Some(lists) => {
            let ghost goal = lists_texts(lists@).map_values(|l: Seq<Seq<char>>| string_array(l));
            let mut items: Vec<String> = Vec::new();
            let mut i: usize = 0;
            while i < lists.len()
                invariant
                    i <= lists@.len(),
                    goal == lists_texts(lists@).map_values(|l: Seq<Seq<char>>| string_array(l)),
                    crate::text::texts(items@) == goal.take(i as int),
                decreases lists.len() - i,
            {
                let ghost before = items@;
                items.push(write_strings(&lists[i]));
                assert(crate::text::texts(items@) =~= crate::text::texts(before).push(
                    goal[i as int],
                ));
                assert(crate::text::texts(items@) =~= goal.take(i + 1));
                i = i + 1;
            }
            assert(crate::text::texts(items@) =~= goal);
            write_array(&items)
        },
        None => write_null(),
    }
}

proof fn lemma_escaped_char_prefix(a: char, b: char, x: Seq<char>, y: Seq<char>)
    requires
        escaped_char(a) + x == escaped_char(b) + y,
    ensures
        a == b,
        x == y,
{
    let ea = escaped_char(a);
    let eb = escaped_char(b);
    let t = ea + x;
    assert(t[0] == ea[0] && t[0] == eb[0]);
    if ea.len() > 1 && eb.len() > 1 {
        assert(t[1] == ea[1] && t[1] == eb[1]);
        if ea.len() > 2 && eb.len() > 2 {
            assert(t[4] == ea[4] && t[4] == eb[4]);
            assert(t[5] == ea[5] && t[5] == eb[5]);
        }
    }
    assert(a == b);
    assert(x =~= t.skip(ea.len() as int));
    assert(y =~= t.skip(eb.len() as int));
}

proof fn lemma_escaped_prefix(a: Seq<char>, b: Seq<char>, x: Seq<char>, y: Seq<char>)
    requires
        escaped(a) + seq!['"'] + x == escaped(b) + seq!['"'] + y,
    ensures
        a == b,
        x == y,
    decreases a.len(),
{
    let t = escaped(a) + seq!['"'] + x;
    if a.len() == 0 || b.len() == 0 {
        if a.len() > 0 {
            assert(t[0] == escaped_char(a[0])[0]);
            assert(t[0] == '"');
        }
        if b.len() > 0 {
            assert(t[0] == escaped_char(b[0])[0]);
            assert(t[0] == '"');
        }
        assert(a =~= b);
        assert(x =~= t.skip(1));
        assert(y =~= t.skip(1));
    } else {
        let ra = escaped(a.drop_first()) + seq!['"'] + x;
        let rb = escaped(b.drop_first()) + seq!['"'] + y;
        assert(escaped_char(a[0]) + ra =~= t);
        assert(escaped_char(b[0]) + rb =~= t);
        lemma_escaped_char_prefix(a[0], b[0], ra, rb);
        lemma_escaped_prefix(a.drop_first(), b.drop_first(), x, y);
        assert(a =~= seq![a[0]] + a.drop_first());
        assert(b =~= seq![b[0]] + b.drop_first());
    }
}

/// A JSON string tells where it ends and what it holds: of two texts that are alike
/// and start with one, the strings hold the same, and what follows them is alike.
pub proof fn law_quoted_text_tells_its_contents(
    a: Seq<char>,
    b: Seq<char>,
    x: Seq<char>,
    y: Seq<char>,
)
    requires
        quoted(a) + x == quoted(b) + y,
    ensures
        a == b,
        x == y,
{
    let t = quoted(a) + x;
    assert(escaped(a) + seq!['"'] + x =~= t.skip(1));
    assert(escaped(b) + seq!['"'] + y =~= t.skip(1));
    lemma_escaped_prefix(a, b, x, y);
}

/// Texts without a comma are told by what comes before the first comma.
proof fn lemma_before_comma(p: Seq<char>, q: Seq<char>, x: Seq<char>, y: Seq<char>)
    requires
        forall|i: int| 0 <= i < p.len() ==> #[trigger] p[i] != ',',
        forall|i: int| 0 <= i < q.len() ==> #[trigger] q[i] != ',',
        p + seq![','] + x == q + seq![','] + y,
    ensures
        p == q,
        x == y,
{
    let t = p + seq![','] + x;
    assert(t[p.len() as int] == ',');
    assert(t[q.len() as int] == ',');
    if p.len() < q.len() {
        assert(t[p.len() as int] == q[p.len() as int]);
    } else if q.len() < p.len() {
        assert(t[q.len() as int] == p[q.len() as int]);
    }
    assert(p =~= t.take(p.len() as int));
    assert(q =~= t.take(q.len() as int));
    assert(x =~= t.skip(p.len() as int + 1));
    assert(y =~= t.skip(q.len() as int + 1));
}

proof fn lemma_number_no_comma(n: Option<nat>)
    ensures
        forall|i: int|
            0 <= i < number_or_null(n).len() ==> #[trigger] number_or_null(n)[i] != ',',
{
    if let Some(k) = n {
        crate::text::lemma_decimal_digits(k);
    }
}

/// A number or `null` before a comma tells itself.
pub proof fn lemma_number_prefix(a: Option<nat>, b: Option<nat>, x: Seq<char>, y: Seq<char>)
    requires
        number_or_null(a) + seq![','] + x == number_or_null(b) + seq![','] + y,
    ensures
        a == b,
        x == y,
{
    lemma_number_no_comma(a);
    lemma_number_no_comma(b);
    lemma_before_comma(number_or_null(a), number_or_null(b), x, y);
    if let Some(k) = a {
        crate::text::lemma_decimal_digits(k);
        assert('0' <= number_or_null(a)[0] <= '9');
    }
    if let Some(k) = b {
        crate::text::lemma_decimal_digits(k);
        assert('0' <= number_or_null(b)[0] <= '9');
    }
}

/// A string or `null` tells itself.
pub proof fn lemma_string_prefix(
    a: Option<Seq<char>>,
    b: Option<Seq<char>>,
    x: Seq<char>,
    y: Seq<char>,
)
    requires
        string_or_null(a) + x == string_or_null(b) + y,
    ensures
        a == b,
        x == y,
{
    let t = string_or_null(a) + x;
    assert(t[0] == string_or_null(a)[0]);
    assert(t[0] == string_or_null(b)[0]);
    match (a, b) {
        (Some(s), Some(r)) => law_quoted_text_tells_its_contents(s, r, x, y),
        _ => {
            assert(a is None && b is None);
            assert(x =~= t.skip(4));
            assert(y =~= t.skip(4));
        },
    }
}

/// Whether the texts of the elements of an array tell where they end, and are no
/// end of an array.
spec fn tells_itself<T>(enc: spec_fn(T) -> Seq<char>) -> bool {
    &&& forall|a: T| (#[trigger] enc(a)).len() > 0 && enc(a)[0] != ']'
    &&& forall|a: T, b: T, x: Seq<char>, y: Seq<char>|
        #![trigger enc(a) + x, enc(b) + y]
        enc(a) + x == enc(b) + y ==> a == b && x == y
}

proof fn lemma_elements_prefix<T>(
    enc: spec_fn(T) -> Seq<char>,
    a: Seq<T>,
    b: Seq<T>,
    x: Seq<char>,
    y: Seq<char>,
)
    requires
        tells_itself(enc),
        crate::text::joined(a.map_values(enc), seq![',']) + seq![']'] + x == crate::text::joined(
            b.map_values(enc),
            seq![','],
        ) + seq![']'] + y,
    ensures
        a == b,
        x == y,
    decreases a.len(),
{
    let sep = seq![','];
    let end = seq![']'];
    let ja = crate::text::joined(a.map_values(enc), sep);
    let jb = crate::text::joined(b.map_values(enc), sep);
    let t = ja + end + x;
    let ta = crate::text::joined(a.drop_first().map_values(enc), sep) + end + x;
    let tb = crate::text::joined(b.drop_first().map_values(enc), sep) + end + y;
    let ra = if a.len() == 1 {
        end + x
    } else {
        sep + ta
    };
    let rb = if b.len() == 1 {
        end + y
    } else {
        sep + tb
    };
    if a.len() > 0 {
        assert(a.map_values(enc)[0] == enc(a[0]));
        if a.len() > 1 {
            crate::text::lemma_joined_first(a.map_values(enc), sep);
            assert(a.map_values(enc).drop_first() =~= a.drop_first().map_values(enc));
        }
        assert(t =~= enc(a[0]) + ra);
    }
    if b.len() > 0 {
        assert(b.map_values(enc)[0] == enc(b[0]));
        if b.len() > 1 {
            crate::text::lemma_joined_first(b.map_values(enc), sep);
            assert(b.map_values(enc).drop_first() =~= b.drop_first().map_values(enc));
        }
        assert(t =~= enc(b[0]) + rb);
    }
    if a.len() == 0 || b.len() == 0 {
        if a.len() > 0 {
            assert(t[0] == enc(a[0])[0]);
            assert(t[0] == ']');
        }
        if b.len() > 0 {
            assert(t[0] == enc(b[0])[0]);
            assert(t[0] == ']');
        }
        assert(a =~= b);
        assert(x =~= t.skip(1));
        assert(y =~= t.skip(1));
    } else {
        assert(enc(a[0]) + ra == enc(b[0]) + rb);
        assert(a[0] == b[0] && ra == rb);
        assert(ra[0] == rb[0]);
        if a.len() == 1 {
            assert(b.len() == 1);
            assert(x =~= ra.skip(1));
            assert(y =~= rb.skip(1));
            assert(a =~= b);
        } else {
            assert(b.len() > 1);
            assert(ta =~= ra.skip(1));
            assert(tb =~= rb.skip(1));
            lemma_elements_prefix(enc, a.drop_first(), b.drop_first(), x, y);
            assert(a =~= seq![a[0]] + a.drop_first());
            assert(b =~= seq![b[0]] + b.drop_first());
        }
    }
}

proof fn lemma_array_prefix<T>(
    enc: spec_fn(T) -> Seq<char>,
    a: Seq<T>,
    b: Seq<T>,
    x: Seq<char>,
    y: Seq<char>,
)
    requires
        tells_itself(enc),
        array(a.map_values(enc)) + x == array(b.map_values(enc)) + y,
    ensures
        a == b,
        x == y,
{
    let t = array(a.map_values(enc)) + x;
    assert(crate::text::joined(a.map_values(enc), seq![',']) + seq![']'] + x =~= t.skip(1));
    assert(crate::text::joined(b.map_values(enc), seq![',']) + seq![']'] + y =~= t.skip(1));
    lemma_elements_prefix(enc, a, b, x, y);
}

proof fn lemma_string_arrays_tell_themselves()
    ensures
        tells_itself(|l: Seq<Seq<char>>| string_array(l)),
{
    let strings = |s: Seq<char>| quoted(s);
    let lists = |l: Seq<Seq<char>>| string_array(l);
    assert(tells_itself(strings)) by {
        assert forall|a: Seq<char>, b: Seq<char>, x: Seq<char>, y: Seq<char>|
            #![trigger strings(a) + x, strings(b) + y]
            strings(a) + x == strings(b) + y implies a == b && x == y by {
            law_quoted_text_tells_its_contents(a, b, x, y);
        }
    }
    assert forall|a: Seq<Seq<char>>, b: Seq<Seq<char>>, x: Seq<char>, y: Seq<char>|
        #![trigger lists(a) + x, lists(b) + y]
        lists(a) + x == lists(b) + y implies a == b && x == y by {
        lemma_array_prefix(strings, a, b, x, y);
    }
}

/// An array of arrays of strings, or `null`, tells itself.
pub proof fn lemma_string_arrays_prefix(
    a: Option<Seq<Seq<Seq<char>>>>,
    b: Option<Seq<Seq<Seq<char>>>>,
    x: Seq<char>,
    y: Seq<char>,
)
    requires
        string_arrays_or_null(a) + x == string_arrays_or_null(b) + y,
    ensures
        a == b,
        x == y,
{
    let t = string_arrays_or_null(a) + x;
    assert(t[0] == string_arrays_or_null(a)[0]);
    assert(t[0] == string_arrays_or_null(b)[0]);
    match (a, b) {
        (Some(k), Some(l)) => {
            lemma_string_arrays_tell_themselves();
            lemma_array_prefix(|l: Seq<Seq<char>>| string_array(l), k, l, x, y);
        },
        _ => {
            assert(a is None && b is None);
            assert(x =~= t.skip(4));
            assert(y =~= t.skip(4));
        },
    }
}

} // verus!
