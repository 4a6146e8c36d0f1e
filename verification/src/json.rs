//! The library's own model of wire JSON values, together with the
//! canonical text form that outbound envelopes are written in.
use vstd::prelude::*;

verus! {

/// A JSON value as this protocol uses it.  Numbers are restricted to
/// unsigned 64-bit integers, the only numeric shape the protocol
/// carries (room ids, request ids); any other number read off the wire
/// is mapped to `Null` by the parsing boundary.
pub enum JsonValue {
    Null,
    Bool(bool),
    Uint(u64),
    Text(Vec<char>),
    Array(Vec<JsonValue>),
    Object(Vec<(Vec<char>, JsonValue)>),
}

/// The mathematical model of a `JsonValue`.
pub enum Jv {
    Null,
    Bool(bool),
    Uint(u64),
    Text(Seq<char>),
    Arr(Seq<Jv>),
    Obj(Seq<(Seq<char>, Jv)>),
}

/// The model of a concrete `JsonValue`.
pub open spec fn jview(j: JsonValue) -> Jv
    decreases j,
{
    match j {
        JsonValue::Null => Jv::Null,
        JsonValue::Bool(b) => Jv::Bool(b),
        JsonValue::Uint(u) => Jv::Uint(u),
        JsonValue::Text(t) => Jv::Text(t@),
        JsonValue::Array(a) => Jv::Arr(jviews(a@)),
        JsonValue::Object(o) => Jv::Obj(jview_fields(o@)),
    }
}

/// Models of a sequence of values.
pub open spec fn jviews(s: Seq<JsonValue>) -> Seq<Jv>
    decreases s,
{
    if s.len() == 0 {
        Seq::empty()
    } else {
        seq![jview(s[0])] + jviews(s.drop_first())
    }
}

/// Models of a sequence of object fields.
pub open spec fn jview_fields(s: Seq<(Vec<char>, JsonValue)>) -> Seq<(Seq<char>, Jv)>
    decreases s,
{
    if s.len() == 0 {
        Seq::empty()
    } else {
        seq![(s[0].0@, jview(s[0].1))] + jview_fields(s.drop_first())
    }
}

/// The decimal digit characters, least significant last.
pub open spec fn digit_char(d: nat) -> char {
    if d == 0 { '0' } else if d == 1 { '1' } else if d == 2 { '2' } else if d == 3 { '3' }
    else if d == 4 { '4' } else if d == 5 { '5' } else if d == 6 { '6' } else if d == 7 { '7' }
    else if d == 8 { '8' } else { '9' }
}

/// The hexadecimal digit characters, lower case.
pub open spec fn hex_char(d: nat) -> char {
    if d < 10 { digit_char(d) }
    else if d == 10 { 'a' } else if d == 11 { 'b' } else if d == 12 { 'c' }
    else if d == 13 { 'd' } else if d == 14 { 'e' } else { 'f' }
}

/// Decimal text of a number, no leading zeros (a lone zero for 0).
pub open spec fn dec_str(n: nat) -> Seq<char>
    decreases n,
{
    if n < 10 {
        seq![digit_char(n)]
    } else {
        dec_str(n / 10).push(digit_char(n % 10))
    }
}

/// How one character is written inside a JSON string: quote and
/// backslash get a backslash escape, control characters a `\u00XX`
/// escape, and everything else stands as itself.
pub open spec fn esc_char(c: char) -> Seq<char> {
    if c == '"' {
        seq!['\\', '"']
    } else if c == '\\' {
        seq!['\\', '\\']
    } else if (c as u32) < 32 {
        seq!['\\', 'u', '0', '0', hex_char(((c as u32) / 16) as nat), hex_char(((c as u32) % 16) as nat)]
    } else {
        seq![c]
    }
}

/// A whole string body, escaped.
pub open spec fn esc_str(s: Seq<char>) -> Seq<char>
    decreases s,
{
    if s.len() == 0 {
        Seq::empty()
    } else {
        esc_char(s[0]) + esc_str(s.drop_first())
    }
}

/// The canonical text of a JSON value: no whitespace, object fields in
/// their held order, strings escaped as `esc_str` says.
pub open spec fn jtext(v: Jv) -> Seq<char>
    decreases v,
{
    match v {
        Jv::Null => seq!['n', 'u', 'l', 'l'],
        Jv::Bool(b) => if b { seq!['t', 'r', 'u', 'e'] } else { seq!['f', 'a', 'l', 's', 'e'] },
        Jv::Uint(u) => dec_str(u as nat),
        Jv::Text(t) => seq!['"'] + esc_str(t) + seq!['"'],
        Jv::Arr(els) => seq!['['] + jtext_arr(els) + seq![']'],
        Jv::Obj(fs) => seq!['{'] + jtext_obj(fs) + seq!['}'],
    }
}

/// The comma-separated texts of array elements.
pub open spec fn jtext_arr(els: Seq<Jv>) -> Seq<char>
    decreases els,
{
    if els.len() == 0 {
        Seq::empty()
    } else if els.len() == 1 {
        jtext(els[0])
    } else {
        jtext(els[0]) + seq![','] + jtext_arr(els.drop_first())
    }
}

/// The comma-separated `"key":value` texts of object fields.
pub open spec fn jtext_obj(fs: Seq<(Seq<char>, Jv)>) -> Seq<char>
    decreases fs,
{
    if fs.len() == 0 {
        Seq::empty()
    } else {
        let head = seq!['"'] + esc_str(fs[0].0) + seq!['"', ':'] + jtext(fs[0].1);
        if fs.len() == 1 {
            head
        } else {
            head + seq![','] + jtext_obj(fs.drop_first())
        }
    }
}

/// Length and elementwise shape of `jviews`.
pub proof fn lemma_jviews(s: Seq<JsonValue>)
    ensures
        jviews(s).len() == s.len(),
        forall|i: int| 0 <= i < s.len() ==> jviews(s)[i] == jview(s[i]),
    decreases s,
{
    if s.len() > 0 {
        lemma_jviews(s.drop_first());
        assert forall|i: int| 0 <= i < s.len() implies jviews(s)[i] == jview(s[i]) by {
            if i > 0 {
                assert(s.drop_first()[i - 1] == s[i]);
            }
        }
    }
}

/// Length and elementwise shape of `jview_fields`.
pub proof fn lemma_jview_fields(s: Seq<(Vec<char>, JsonValue)>)
    ensures
        jview_fields(s).len() == s.len(),
        forall|i: int| 0 <= i < s.len()
            ==> jview_fields(s)[i] == (s[i].0@, jview(s[i].1)),
    decreases s,
{
    if s.len() > 0 {
        lemma_jview_fields(s.drop_first());
        assert forall|i: int| 0 <= i < s.len() implies jview_fields(s)[i] == (
            s[i].0@,
            jview(s[i].1),
        ) by {
            if i > 0 {
                assert(s.drop_first()[i - 1] == s[i]);
            }
        }
    }
}

/// Escaping one more character extends the escaped text.
proof fn lemma_esc_take_step(s: Seq<char>, i: int)
    requires
        0 <= i < s.len(),
    ensures
        esc_str(s.take(i + 1)) == esc_str(s.take(i)) + esc_char(s[i]),
    decreases i,
{
    if i == 0 {
        assert(s.take(1) =~= seq![s[0]]);
        assert(seq![s[0]].drop_first() =~= Seq::<char>::empty());
        assert(esc_char(s[0]) + Seq::<char>::empty() =~= esc_char(s[0]));
        assert(s.take(0) =~= Seq::<char>::empty());
        assert(Seq::<char>::empty() + esc_char(s[0]) =~= esc_char(s[0]));
    } else {
        let d = s.drop_first();
        lemma_esc_take_step(d, i - 1);
        assert(s.take(i + 1).drop_first() =~= d.take(i));
        assert(s.take(i).drop_first() =~= d.take(i - 1));
        assert(s.take(i + 1)[0] == s[0]);
        assert(s.take(i)[0] == s[0]);
        assert(d[i - 1] == s[i]);
        assert((esc_char(s[0]) + esc_str(d.take(i - 1))) + esc_char(s[i]) =~= esc_char(s[0])
            + (esc_str(d.take(i - 1)) + esc_char(s[i])));
    }
}

/// Decimal digit character of `d`.
fn digit_char_x(d: u64) -> (c: char)
    requires
        d < 10,
    ensures
        c == digit_char(d as nat),
{
    match d {
        0 => '0',
        1 => '1',
        2 => '2',
        3 => '3',
        4 => '4',
        5 => '5',
        6 => '6',
        7 => '7',
        8 => '8',
        _ => '9',
    }
}

/// Hexadecimal digit character of `d`, lower case.
fn hex_char_x(d: u32) -> (c: char)
    requires
        d < 16,
    ensures
        c == hex_char(d as nat),
{
    match d {
        0 => '0',
        1 => '1',
        2 => '2',
        3 => '3',
        4 => '4',
        5 => '5',
        6 => '6',
        7 => '7',
        8 => '8',
        9 => '9',
        10 => 'a',
        11 => 'b',
        12 => 'c',
        13 => 'd',
        14 => 'e',
        _ => 'f',
    }
}

/// Appends the decimal text of `n`.
fn write_u64(out: &mut Vec<char>, n: u64)
    ensures
        final(out)@ == old(out)@ + dec_str(n as nat),
    decreases n,
{
    if n < 10 {
        out.push(digit_char_x(n));
        assert(out@ =~= old(out)@ + dec_str(n as nat));
    } else {
        write_u64(out, n / 10);
        out.push(digit_char_x(n % 10));
        assert((n / 10) as nat == (n as nat) / 10) by (nonlinear_arith);
        assert((n % 10) as nat == (n as nat) % 10) by (nonlinear_arith);
        assert(out@ =~= old(out)@ + dec_str(n as nat));
    }
}

/// Appends the escape of one character.
fn push_esc_char(out: &mut Vec<char>, c: char)
    ensures
        final(out)@ == old(out)@ + esc_char(c),
{
    if c == '"' {
        out.push('\\');
        out.push('"');
    } else if c == '\\' {
        out.push('\\');
        out.push('\\');
    } else {
        let u = c as u32;
        if u < 32 {
            out.push('\\');
            out.push('u');
            out.push('0');
            out.push('0');
            out.push(hex_char_x(u / 16));
            out.push(hex_char_x(u % 16));
        } else {
            out.push(c);
        }
    }
    assert(out@ =~= old(out)@ + esc_char(c));
}

/// Appends the escaped body of a string.
fn write_escaped(out: &mut Vec<char>, t: &Vec<char>)
    ensures
        final(out)@ == old(out)@ + esc_str(t@),
{
    let ghost out0 = out@;
    let mut i: usize = 0;
    while i < t.len()
        invariant
            i <= t.len(),
            out@ == out0 + esc_str(t@.take(i as int)),
        decreases t.len() - i,
    {
        proof {
            lemma_esc_take_step(t@, i as int);
        }
        push_esc_char(out, t[i]);
        i = i + 1;
        assert(out@ =~= out0 + esc_str(t@.take(i as int)));
    }
    assert(t@.take(t@.len() as int) =~= t@);
    assert(out0 =~= out0 + esc_str(t@.take(0)));
}

/// Appends the canonical text of a value.
pub fn write_json(out: &mut Vec<char>, j: &JsonValue)
    ensures
        final(out)@ == old(out)@ + jtext(jview(*j)),
    decreases *j, 0int,
{
    match j {
        JsonValue::Null => {
            out.push('n');
            out.push('u');
            out.push('l');
            out.push('l');
            assert(out@ =~= old(out)@ + jtext(jview(*j)));
        },
        JsonValue::Bool(b) => {
            if *b {
                out.push('t');
                out.push('r');
                out.push('u');
                out.push('e');
            } else {
                out.push('f');
                out.push('a');
                out.push('l');
                out.push('s');
                out.push('e');
            }
            assert(out@ =~= old(out)@ + jtext(jview(*j)));
        },
        JsonValue::Uint(u) => {
            write_u64(out, *u);
        },
        JsonValue::Text(t) => {
            out.push('"');
            write_escaped(out, t);
            out.push('"');
            assert(out@ =~= old(out)@ + jtext(jview(*j)));
        },
        JsonValue::Array(a) => {
            out.push('[');
            proof {
                assert(decreases_to!(*j => j->Array_0));
                assert(decreases_to!(j->Array_0 => a@));
                assert(decreases_to!(*j => a@));
                assert(a@.skip(0) == a@) by {
                    assert(a@.skip(0) =~= a@);
                }
                assert(decreases_to!(*j, 0int => a@.skip(0), 1int));
            }
            write_arr(out, a, 0);
            out.push(']');
            assert(jviews(a@).skip(0) =~= jviews(a@));
            assert(out@ =~= old(out)@ + jtext(jview(*j)));
        },
        JsonValue::Object(o) => {
            out.push('{');
            proof {
                assert(decreases_to!(*j => j->Object_0));
                assert(decreases_to!(j->Object_0 => o@));
                assert(decreases_to!(*j => o@));
                assert(o@.skip(0) == o@) by {
                    assert(o@.skip(0) =~= o@);
                }
                assert(decreases_to!(*j, 0int => o@.skip(0), 1int));
            }
            write_obj(out, o, 0);
            out.push('}');
            assert(jview_fields(o@).skip(0) =~= jview_fields(o@));
            assert(out@ =~= old(out)@ + jtext(jview(*j)));
        },
    }
}

/// Appends the texts of the elements from index `i` on, comma-separated.
fn write_arr(out: &mut Vec<char>, a: &Vec<JsonValue>, i: usize)
    requires
        i <= a.len(),
    ensures
        final(out)@ == old(out)@ + jtext_arr(jviews(a@).skip(i as int)),
    decreases a@.skip(i as int), 1int,
{
    proof {
        lemma_jviews(a@);
    }
    let ghost vs = jviews(a@).skip(i as int);
    if i == a.len() {
        assert(vs =~= Seq::<Jv>::empty());
        assert(out@ =~= out@ + jtext_arr(vs));
    } else {
        proof {
            assert(a@.skip(i as int)[0] == a@[i as int]);
            assert(decreases_to!(a@.skip(i as int), 1int => a@[i as int], 0int));
        }
        write_json(out, &a[i]);
        assert(vs[0] == jview(a@[i as int]));
        if i + 1 == a.len() {
            assert(vs.len() == 1);
            assert(out@ =~= old(out)@ + jtext_arr(vs));
        } else {
            out.push(',');
            proof {
                assert(a@.skip(i as int + 1) =~= a@.skip(i as int).subrange(
                    1,
                    a@.skip(i as int).len() as int,
                ));
                assert(decreases_to!(a@.skip(i as int) => a@.skip(i as int).subrange(
                    1,
                    a@.skip(i as int).len() as int,
                )));
            }
            write_arr(out, a, i + 1);
            assert(vs.drop_first() =~= jviews(a@).skip(i as int + 1));
            assert(out@ =~= old(out)@ + ((jtext(vs[0]) + seq![',']) + jtext_arr(vs.drop_first())));
            assert(old(out)@ + ((jtext(vs[0]) + seq![',']) + jtext_arr(vs.drop_first())) =~= old(
                out,
            )@ + jtext_arr(vs));
        }
    }
}

/// Appends the `"key":value` texts of the fields from index `i` on.
fn write_obj(out: &mut Vec<char>, o: &Vec<(Vec<char>, JsonValue)>, i: usize)
    requires
        i <= o.len(),
    ensures
        final(out)@ == old(out)@ + jtext_obj(jview_fields(o@).skip(i as int)),
    decreases o@.skip(i as int), 1int,
{
    proof {
        lemma_jview_fields(o@);
    }
    let ghost fs = jview_fields(o@).skip(i as int);
    if i == o.len() {
        assert(fs =~= Seq::<(Seq<char>, Jv)>::empty());
        assert(out@ =~= out@ + jtext_obj(fs));
    } else {
        out.push('"');
        write_escaped(out, &o[i].0);
        out.push('"');
        out.push(':');
        proof {
            assert(o@.skip(i as int)[0] == o@[i as int]);
            assert(decreases_to!(o@.skip(i as int), 1int => o@[i as int].1, 0int));
        }
        write_json(out, &o[i].1);
        assert(fs[0] == (o@[i as int].0@, jview(o@[i as int].1)));
        let ghost head = seq!['"'] + esc_str(fs[0].0) + seq!['"', ':'] + jtext(fs[0].1);
        if i + 1 == o.len() {
            assert(fs.len() == 1);
            assert(out@ =~= old(out)@ + head);
        } else {
            out.push(',');
            proof {
                assert(o@.skip(i as int + 1) =~= o@.skip(i as int).subrange(
                    1,
                    o@.skip(i as int).len() as int,
                ));
                assert(decreases_to!(o@.skip(i as int) => o@.skip(i as int).subrange(
                    1,
                    o@.skip(i as int).len() as int,
                )));
            }
            write_obj(out, o, i + 1);
            assert(fs.drop_first() =~= jview_fields(o@).skip(i as int + 1));
            assert(out@ =~= old(out)@ + ((head + seq![',']) + jtext_obj(fs.drop_first())));
            assert(old(out)@ + ((head + seq![',']) + jtext_obj(fs.drop_first())) =~= old(out)@
                + jtext_obj(fs));
        }
    }
}

/// Whether every object of the value has pairwise distinct keys.  Only
/// such values round-trip through text: a duplicated key would be
/// collapsed by any reader.
pub open spec fn canonical(v: Jv) -> bool
    decreases v,
{
    match v {
        Jv::Null => true,
        Jv::Bool(_) => true,
        Jv::Uint(_) => true,
        Jv::Text(_) => true,
        Jv::Arr(els) => canonical_arr(els),
        Jv::Obj(fs) => distinct_keys(fs) && canonical_obj(fs),
    }
}

/// `canonical`, over array elements.
pub open spec fn canonical_arr(els: Seq<Jv>) -> bool
    decreases els,
{
    if els.len() == 0 {
        true
    } else {
        canonical(els[0]) && canonical_arr(els.drop_first())
    }
}

/// `canonical`, over object field values.
pub open spec fn canonical_obj(fs: Seq<(Seq<char>, Jv)>) -> bool
    decreases fs,
{
    if fs.len() == 0 {
        true
    } else {
        canonical(fs[0].1) && canonical_obj(fs.drop_first())
    }
}

/// Pairwise distinct object keys.
pub open spec fn distinct_keys(fs: Seq<(Seq<char>, Jv)>) -> bool {
    forall|i: int, j: int| 0 <= i < j < fs.len() ==> fs[i].0 != fs[j].0
}

/// Nesting depth of a value: 1 for a leaf, one more for each level of
/// array or object around it.
pub open spec fn jdepth(v: Jv) -> nat
    decreases v,
{
    match v {
        Jv::Null => 1,
        Jv::Bool(_) => 1,
        Jv::Uint(_) => 1,
        Jv::Text(_) => 1,
        Jv::Arr(els) => 1 + jdepth_arr(els),
        Jv::Obj(fs) => 1 + jdepth_obj(fs),
    }
}

/// Greatest depth among array elements.
pub open spec fn jdepth_arr(els: Seq<Jv>) -> nat
    decreases els,
{
    if els.len() == 0 {
        0
    } else {
        let h = jdepth(els[0]);
        let t = jdepth_arr(els.drop_first());
        if h >= t {
            h
        } else {
            t
        }
    }
}

/// Greatest depth among object field values.
pub open spec fn jdepth_obj(fs: Seq<(Seq<char>, Jv)>) -> nat
    decreases fs,
{
    if fs.len() == 0 {
        0
    } else {
        let h = jdepth(fs[0].1);
        let t = jdepth_obj(fs.drop_first());
        if h >= t {
            h
        } else {
            t
        }
    }
}

/// The value under `key` in a field list, first match.
pub open spec fn lookup(fs: Seq<(Seq<char>, Jv)>, key: Seq<char>) -> Option<Jv>
    decreases fs,
{
    if fs.len() == 0 {
        None
    } else if fs[0].0 == key {
        Some(fs[0].1)
    } else {
        lookup(fs.drop_first(), key)
    }
}

/// `lookup` skips a keyless prefix.
pub proof fn lemma_lookup_prefix(fs: Seq<(Seq<char>, Jv)>, key: Seq<char>, i: int)
    requires
        0 <= i <= fs.len(),
        forall|k: int| 0 <= k < i ==> fs[k].0 != key,
    ensures
        lookup(fs.skip(i), key) == lookup(fs, key),
    decreases i,
{
    if i > 0 {
        lemma_lookup_prefix(fs.drop_first(), key, i - 1);
        assert(fs.drop_first().skip(i - 1) =~= fs.skip(i));
    } else {
        assert(fs.skip(0) =~= fs);
    }
}

/// A copy of a character vector.
pub fn clone_chars(v: &Vec<char>) -> (r: Vec<char>)
    ensures
        r@ == v@,
{
    let mut r: Vec<char> = Vec::new();
    let mut i: usize = 0;
    while i < v.len()
        invariant
            i <= v@.len(),
            r@ == v@.take(i as int),
        decreases v@.len() - i,
    {
        r.push(v[i]);
        proof {
            assert(v@.take(i as int).push(v@[i as int]) =~= v@.take(i as int + 1));
        }
        i = i + 1;
    }
    proof {
        assert(v@.take(v@.len() as int) =~= v@);
    }
    r
}

/// Whether two character vectors hold the same characters.
pub fn chars_eq(a: &Vec<char>, b: &Vec<char>) -> (r: bool)
    ensures
        r == (a@ == b@),
{
    if a.len() != b.len() {
        return false;
    }
    let mut i: usize = 0;
    while i < a.len()
        invariant
            i <= a.len(),
            a@.len() == b@.len(),
            forall|k: int| 0 <= k < i ==> a@[k] == b@[k],
        decreases a.len() - i,
    {
        if a[i] != b[i] {
            return false;
        }
        i = i + 1;
    }
    proof {
        assert(a@ =~= b@);
    }
    true
}

/// Relies on `str::chars`: yields the characters of the slice, in order.
#[verifier::external_body]
pub fn str_to_chars(s: &str) -> (r: Vec<char>)
    ensures
        r@ == s@,
{
    s.chars().collect()
}

/// Relies on `String`'s `FromIterator<char>`: collecting characters
/// yields the string of exactly those characters, in order.
#[verifier::external_body]
pub fn chars_to_string(v: &Vec<char>) -> (r: String)
    ensures
        r@ == v@,
{
    v.iter().collect()
}

/// Declares `serde_json::Value` so the parsing boundary below may pass
/// one through; the library never looks inside such a value.
#[verifier::external_type_specification]
#[verifier::external_body]
pub struct ExSerdeValue(serde_json::Value);

/// Relies on `serde_json::Value` and `serde_json::Number::as_u64`: maps
/// a parsed tree into the library's model, one arm per variant, moving
/// fields.  A number outside `u64` becomes `Null`; this protocol never
/// carries such numbers.
#[verifier::external_body]
fn value_to_json(v: serde_json::Value) -> JsonValue {
    match v {
        serde_json::Value::Null => JsonValue::Null,
        serde_json::Value::Bool(b) => JsonValue::Bool(b),
        serde_json::Value::Number(n) => n.as_u64().map_or(JsonValue::Null, JsonValue::Uint),
        serde_json::Value::String(s) => JsonValue::Text(s.chars().collect()),
        serde_json::Value::Array(a) => JsonValue::Array(a.into_iter().map(value_to_json).collect()),
        serde_json::Value::Object(o) => JsonValue::Object(
            o.into_iter().map(|(k, x)| (k.chars().collect(), value_to_json(x))).collect(),
        ),
    }
}

/// A name for what parsing a text yields: `serde_json::from_str`
/// composed with the variant mapping above is a function of the text
/// alone, so every call on equal text yields the same outcome.
pub uninterp spec fn json_of(s: Seq<char>) -> Option<Jv>;

/// Relies on `serde_json::from_str::<serde_json::Value>`: parses JSON
/// text, or fails on malformed text.  Two guarantees are stated, read
/// off serde_json's parser.  First, the outcome is the named function
/// `json_of` of the text: failure or success, and which value, depend
/// on the characters alone.  Second, on text in the canonical form of
/// a canonical value of bounded depth it succeeds with exactly that
/// value (standard JSON grammar; object fields keep their textual
/// order under the `preserve_order` feature; integers within `u64`
/// are exact; the parser's recursion limit of 128 lies far above the
/// depth bound).  Nothing more is promised of any other text.
#[verifier::external_body]
pub fn parse_json(s: &str) -> (r: Option<JsonValue>)
    ensures
        (match r {
            Option::None => json_of(s@) is None,
            Option::Some(x) => json_of(s@) == Some(jview(x)),
        }),
        forall|v: Jv|
            canonical(v) && jdepth(v) <= 64 && s@ == #[trigger] jtext(v) ==> r is Some && jview(
                r->0,
            ) == v,
{
    match serde_json::from_str::<serde_json::Value>(s) {
        Ok(v) => Some(value_to_json(v)),
        Err(_) => None,
    }
}

/// The canonical text of a value, as characters.
pub fn json_chars(j: &JsonValue) -> (r: Vec<char>)
    ensures
        r@ == jtext(jview(*j)),
{
    let mut out: Vec<char> = Vec::new();
    write_json(&mut out, j);
    assert(Seq::<char>::empty() + jtext(jview(*j)) =~= jtext(jview(*j)));
    out
}

} // verus!
