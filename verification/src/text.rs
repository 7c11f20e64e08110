use vstd::prelude::*;

use crate::json::{arr_view, lemma_arr_view, lemma_obj_view, obj_view, Json, JsonV};
use vstd::string::StrSliceExecFns;

verus! {

/// The decimal digit character for `n` (0 through 9).
pub open spec fn dec_digit(n: nat) -> char
    recommends
        n < 10,
{
    ((48 + n) as u8) as char
}

/// The lower-case hexadecimal digit character for `n` (0 through 15).
pub open spec fn hex_digit(n: nat) -> char
    recommends
        n < 16,
{
    if n < 10 {
        ((48 + n) as u8) as char
    } else {
        ((87 + n) as u8) as char
    }
}

/// Decimal text of a natural number, most significant digit first.
pub open spec fn nat_text(n: nat) -> Seq<char>
    decreases n,
{
    if n < 10 {
        seq![dec_digit(n)]
    } else {
        nat_text(n / 10) + seq![dec_digit(n % 10)]
    }
}

/// Decimal text of an integer: a minus sign for negative values.
pub open spec fn int_text(i: int) -> Seq<char> {
    if i < 0 {
        seq!['-'] + nat_text((-i) as nat)
    } else {
        nat_text(i as nat)
    }
}

/// How one character appears inside a JSON string literal: quote and
/// backslash get a backslash, common control characters their short
/// escapes, the rest of the control range the `\u00XX` form.
pub open spec fn esc_char(c: char) -> Seq<char> {
    if c == '"' {
        seq!['\\', '"']
    } else if c == '\\' {
        seq!['\\', '\\']
    } else if c == '\n' {
        seq!['\\', 'n']
    } else if c == '\r' {
        seq!['\\', 'r']
    } else if c == '\t' {
        seq!['\\', 't']
    } else if (c as u32) < 32 {
        seq!['\\', 'u', '0', '0', hex_digit((c as u32 / 16) as nat), hex_digit(
            (c as u32 % 16) as nat,
        )]
    } else {
        seq![c]
    }
}

/// The body of a JSON string literal: each character escaped.
pub open spec fn str_text(s: Seq<char>) -> Seq<char>
    decreases s.len(),
{
    if s.len() == 0 {
        Seq::empty()
    } else {
        str_text(s.drop_last()) + esc_char(s.last())
    }
}

/// The serialized form of a JSON document: compact, no added spacing,
/// fields and elements in order.
pub open spec fn json_text(v: JsonV) -> Seq<char>
    decreases v, 0int,
{
    match v {
        JsonV::Null => seq!['n', 'u', 'l', 'l'],
        JsonV::Bool(b) => if b {
            seq!['t', 'r', 'u', 'e']
        } else {
            seq!['f', 'a', 'l', 's', 'e']
        },
        JsonV::Int(i) => int_text(i),
        JsonV::Str(s) => seq!['"'] + str_text(s) + seq!['"'],
        JsonV::Arr(elems) => seq!['['] + arr_text(elems) + seq![']'],
        JsonV::Obj(fields) => seq!['{'] + obj_text(fields) + seq!['}'],
    }
}

/// The comma-separated element list of a serialized array.
pub open spec fn arr_text(elems: Seq<JsonV>) -> Seq<char>
    decreases elems, 0int,
{
    if elems.len() == 0 {
        Seq::empty()
    } else if elems.len() == 1 {
        json_text(elems[0])
    } else {
        arr_text(elems.drop_last()) + seq![','] + json_text(elems.last())
    }
}

/// The comma-separated field list of a serialized object.
pub open spec fn obj_text(fields: Seq<(Seq<char>, JsonV)>) -> Seq<char>
    decreases fields, 0int,
{
    if fields.len() == 0 {
        Seq::empty()
    } else if fields.len() == 1 {
        field_text(fields[0])
    } else {
        obj_text(fields.drop_last()) + seq![','] + field_text(fields.last())
    }
}

/// One serialized object field: quoted key, colon, value.
pub open spec fn field_text(field: (Seq<char>, JsonV)) -> Seq<char>
    decreases field.1, 1int,
{
    seq!['"'] + str_text(field.0) + seq!['"', ':'] + json_text(field.1)
}

/// The decimal digit character for `d`.
fn dec_digit_char(d: u64) -> (r: char)
    requires
        d < 10,
    ensures
        r == dec_digit(d as nat),
{
    (48u8 + (d as u8)) as char
}

/// The lower-case hexadecimal digit character for `d`.
fn hex_digit_char(d: u32) -> (r: char)
    requires
        d < 16,
    ensures
        r == hex_digit(d as nat),
{
    if d < 10 {
        (48u8 + (d as u8)) as char
    } else {
        (87u8 + (d as u8)) as char
    }
}

/// Appends the decimal text of `n`.
fn write_digits(n: u64, out: &mut Vec<char>)
    ensures
        final(out)@ == old(out)@ + nat_text(n as nat),
    decreases n,
{
    let ghost out0 = out@;
    if n >= 10 {
        write_digits(n / 10, out);
    }
    out.push(dec_digit_char(n % 10));
    proof {
        if n < 10 {
            assert(out@ =~= out0 + nat_text(n as nat));
        } else {
            assert(out@ =~= out0 + (nat_text((n / 10) as nat) + seq![dec_digit((n % 10) as nat)]));
        }
    }
}

/// Appends the decimal text of `i`, sign included.
fn write_int(i: i64, out: &mut Vec<char>)
    ensures
        final(out)@ == old(out)@ + int_text(i as int),
{
    let ghost out0 = out@;
    if i >= 0 {
        write_digits(i as u64, out);
    } else {
        out.push('-');
        let magnitude: u64 = if i == i64::MIN {
            9223372036854775808u64
        } else {
            (-i) as u64
        };
        write_digits(magnitude, out);
        proof {
            assert(magnitude as nat == (-(i as int)) as nat);
            assert(out@ =~= out0 + (seq!['-'] + nat_text((-(i as int)) as nat)));
        }
    }
}

/// Appends the escaped body of a JSON string literal.
fn write_escaped(s: &String, out: &mut Vec<char>)
    ensures
        final(out)@ == old(out)@ + str_text(s@),
{
    let ghost out0 = out@;
    let text = s.as_str();
    let len = text.unicode_len();
    let mut i: usize = 0;
    proof {
        assert(s@.take(0) =~= Seq::<char>::empty());
    }
    while i < len
        invariant
            i <= len,
            len == s@.len(),
            text@ == s@,
            out@ == out0 + str_text(s@.take(i as int)),
        decreases len - i,
    {
        let c = text.get_char(i);
        let ghost mid = out@;
        if c == '"' {
            out.push('\\');
            out.push('"');
        } else if c == '\\' {
            out.push('\\');
            out.push('\\');
        } else if c == '\n' {
            out.push('\\');
            out.push('n');
        } else if c == '\r' {
            out.push('\\');
            out.push('r');
        } else if c == '\t' {
            out.push('\\');
            out.push('t');
        } else if (c as u32) < 32 {
            let code = c as u32;
            out.push('\\');
            out.push('u');
            out.push('0');
            out.push('0');
            out.push(hex_digit_char(code / 16));
            out.push(hex_digit_char(code % 16));
        } else {
            out.push(c);
        }
        proof {
            assert(out@ =~= mid + esc_char(s@[i as int]));
            assert(s@.take(i + 1).drop_last() =~= s@.take(i as int));
            assert(s@.take(i + 1).last() == s@[i as int]);
            assert(out@ =~= out0 + str_text(s@.take(i + 1)));
        }
        i = i + 1;
    }
    proof {
        assert(s@.take(len as int) =~= s@);
    }
}

/// Appends the serialized form of `v`.
#[verifier::loop_isolation(false)]
fn write_json(v: &Json, out: &mut Vec<char>)
    ensures
        final(out)@ == old(out)@ + json_text(v.deep_view()),
    decreases v,
{
    let ghost out0 = out@;
    match v {
        Json::Null => {
            out.push('n');
            out.push('u');
            out.push('l');
            out.push('l');
            proof {
                assert(out@ =~= out0 + json_text(v.deep_view()));
            }
        },
        Json::Bool(b) => {
            if *b {
                out.push('t');
                out.push('r');
                out.push('u');
                out.push('e');
            } else {
                out.push('f');
                out.push('a');
                out.push('l');
                out.push('s');
                out.push('e');
            }
            proof {
                assert(out@ =~= out0 + json_text(v.deep_view()));
            }
        },
        Json::Int(i) => {
            write_int(*i, out);
        },
        Json::Str(s) => {
            out.push('"');
            write_escaped(s, out);
            out.push('"');
            proof {
                assert(out@ =~= out0 + (seq!['"'] + str_text(s@) + seq!['"']));
            }
        },
        Json::Arr(items) => {
            let ghost iv = arr_view(items@);
            proof {
                lemma_arr_view(items@);
            }
            out.push('[');
            let mut i: usize = 0;
            proof {
                assert(iv.take(0) =~= Seq::<JsonV>::empty());
                assert(out@ =~= out0 + seq!['['] + arr_text(iv.take(0)));
            }
            while i < items.len()
                invariant
                    i <= items@.len(),
                    iv == arr_view(items@),
                    iv.len() == items@.len(),
                    forall|j: int|
                        0 <= j < items@.len() ==> #[trigger] iv[j] == items@[j].deep_view(),
                    out@ == out0 + seq!['['] + arr_text(iv.take(i as int)),
                decreases items@.len() - i,
            {
                if i > 0 {
                    out.push(',');
                }
                let ghost mid = out@;
                proof {
                    assert(decreases_to!(*v => v->Arr_0));
                    assert(decreases_to!(v->Arr_0 => items@));
                    assert(decreases_to!(items@ => items@[i as int]));
                }
                write_json(&items[i], out);
                proof {
                    assert(iv.take(i + 1).drop_last() =~= iv.take(i as int));
                    assert(iv.take(i + 1).last() == iv[i as int]);
                    if i == 0 {
                        assert(arr_text(iv.take(1)) == json_text(iv[0]));
                        assert(out@ =~= out0 + seq!['['] + arr_text(iv.take(1)));
                    } else {
                        assert(arr_text(iv.take(i + 1)) == arr_text(iv.take(i as int)) + seq![',']
                            + json_text(iv[i as int]));
                        assert(out@ =~= out0 + seq!['['] + arr_text(iv.take(i + 1)));
                    }
                }
                i = i + 1;
            }
            out.push(']');
            proof {
                assert(iv.take(items@.len() as int) =~= iv);
                assert(out@ =~= out0 + (seq!['['] + arr_text(iv) + seq![']']));
            }
        },
        Json::Obj(fields) => {
            let ghost fv = obj_view(fields@);
            proof {
                lemma_obj_view(fields@);
            }
            out.push('{');
            let mut i: usize = 0;
            proof {
                assert(fv.take(0) =~= Seq::<(Seq<char>, JsonV)>::empty());
                assert(out@ =~= out0 + seq!['{'] + obj_text(fv.take(0)));
            }
            while i < fields.len()
                invariant
                    i <= fields@.len(),
                    fv == obj_view(fields@),
                    fv.len() == fields@.len(),
                    forall|j: int|
                        0 <= j < fields@.len() ==> #[trigger] fv[j] == (
                            fields@[j].0@,
                            fields@[j].1.deep_view(),
                        ),
                    out@ == out0 + seq!['{'] + obj_text(fv.take(i as int)),
                decreases fields@.len() - i,
            {
                if i > 0 {
                    out.push(',');
                }
                let ghost mid = out@;
                out.push('"');
                write_escaped(&fields[i].0, out);
                out.push('"');
                out.push(':');
                proof {
                    assert(decreases_to!(*v => v->Obj_0));
                    assert(decreases_to!(v->Obj_0 => fields@));
                    assert(decreases_to!(fields@ => fields@[i as int]));
                    assert(decreases_to!(fields@[i as int] => fields@[i as int].1));
                }
                write_json(&fields[i].1, out);
                proof {
                    assert(out@ =~= mid + field_text(fv[i as int]));
                    assert(fv.take(i + 1).drop_last() =~= fv.take(i as int));
                    assert(fv.take(i + 1).last() == fv[i as int]);
                    if i == 0 {
                        assert(obj_text(fv.take(1)) == field_text(fv[0]));
                        assert(out@ =~= out0 + seq!['{'] + obj_text(fv.take(1)));
                    } else {
                        assert(obj_text(fv.take(i + 1)) == obj_text(fv.take(i as int)) + seq![',']
                            + field_text(fv[i as int]));
                        assert(out@ =~= out0 + seq!['{'] + obj_text(fv.take(i + 1)));
                    }
                }
                i = i + 1;
            }
            out.push('}');
            proof {
                assert(fv.take(fields@.len() as int) =~= fv);
                assert(out@ =~= out0 + (seq!['{'] + obj_text(fv) + seq!['}']));
            }
        },
    }
}

/// Relies on `core::iter::Iterator::collect`: collecting characters into a
/// `String` yields the string of exactly those characters, in order.
#[verifier::external_body]
pub(crate) fn chars_to_string(chars: &Vec<char>) -> (r: String)
    ensures
        r@ == chars@,
{
    chars.iter().collect()
}

/// The decimal text of `n` as a string.
pub fn decimal_string(n: u64) -> (r: String)
    ensures
        r@ == nat_text(n as nat),
{
    let mut out: Vec<char> = Vec::new();
    write_digits(n, &mut out);
    proof {
        assert(out@ =~= nat_text(n as nat));
    }
    chars_to_string(&out)
}

/// The serialized form of `v`: compact JSON, fields and elements in order.
pub fn to_text(v: &Json) -> (r: String)
    ensures
        r@ == json_text(v.deep_view()),
{
    let mut out: Vec<char> = Vec::new();
    write_json(v, &mut out);
    chars_to_string(&out)
}

} // verus!
