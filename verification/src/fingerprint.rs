//! What is written to the hasher when a row is fingerprinted.
//!
//! Each value is written as bytes of which none is the start of another
//! value's bytes, so that a row can be read back from what was written of it.
//! The layout is fixed here, and so does not depend on the target: integers
//! take eight bytes, least significant first; text is its UTF-8 encoding and a
//! byte that occurs in no UTF-8 encoding; an optional value is the integer 0,
//! or the integer 1 and the value. On little-endian targets with 64-bit
//! pointers this is what `std::hash::Hash` writes of the same values.
use std::collections::hash_map::DefaultHasher;
use std::hash::Hasher;
use vstd::prelude::*;

verus! {

/// The byte that ends a text.
pub const TEXT_END: u8 = 0xff;

/// The byte that a fingerprint of a session table starts with.
pub const SESSION_TABLE: u8 = 2;

/// What is written of an unsigned integer, or of a bit pattern.
pub open spec fn bits_writes(value: u64) -> Seq<Seq<u8>> {
    seq![vstd::bytes::spec_u64_to_le_bytes(value)]
}

/// What is written of a signed integer.
pub open spec fn integer_writes(value: i64) -> Seq<Seq<u8>> {
    bits_writes(value as u64)
}

/// What is written of a text.
pub open spec fn text_writes(text: Seq<char>) -> Seq<Seq<u8>> {
    seq![vstd::utf8::encode_utf8(text), seq![TEXT_END]]
}

/// What is written of an optional signed integer.
pub open spec fn optional_integer_writes(value: Option<i64>) -> Seq<Seq<u8>> {
    match value {
        None => bits_writes(0),
        Some(present) => bits_writes(1) + integer_writes(present),
    }
}

/// What is written of an optional bit pattern.
pub open spec fn optional_bits_writes(value: Option<u64>) -> Seq<Seq<u8>> {
    match value {
        None => bits_writes(0),
        Some(present) => bits_writes(1) + bits_writes(present),
    }
}

/// What is written of an optional text.
pub open spec fn optional_text_writes(text: Option<Seq<char>>) -> Seq<Seq<u8>> {
    match text {
        None => bits_writes(0),
        Some(present) => bits_writes(1) + text_writes(present),
    }
}

/// The text that an optional string holds.
pub open spec fn optional_text(text: Option<String>) -> Option<Seq<char>> {
    match text {
        None => None,
        Some(present) => Some(present@),
    }
}

/// The hash of what was written to a hasher.
pub open spec fn finished(writes: Seq<Seq<u8>>) -> u64 {
    <DefaultHasher as vstd::std_specs::hash::DefaultHasherAdditionalSpecFns>::spec_finish(writes)
}

/// What is written of rows one after the other, where `row_writes` is what is
/// written of one row.
pub open spec fn rows_writes<R>(row_writes: spec_fn(R) -> Seq<Seq<u8>>, rows: Seq<R>) -> Seq<
    Seq<u8>,
>
    decreases rows.len(),
{
    if rows.len() == 0 {
        Seq::empty()
    } else {
        rows_writes(row_writes, rows.drop_last()) + row_writes(rows.last())
    }
}

/// Whether `a` and `b` are the same or differ at a place that both have.
pub open spec fn same_or_apart(a: Seq<u8>, b: Seq<u8>) -> bool {
    a == b || exists|i: int| 0 <= i < a.len() && i < b.len() && #[trigger] a[i] != b[i]
}

/// Whether the bytes written of any two rows are the same or apart, the same
/// for equal rows only, and never none.
pub open spec fn tells_rows_apart<R>(row_writes: spec_fn(R) -> Seq<Seq<u8>>) -> bool {
    &&& forall|a: R, b: R|
        #![trigger row_writes(a).flatten(), row_writes(b).flatten()]
        same_or_apart(row_writes(a).flatten(), row_writes(b).flatten()) && (row_writes(a).flatten()
            == row_writes(b).flatten() ==> a == b)
    &&& forall|a: R| (#[trigger] row_writes(a).flatten()).len() > 0
}

/// What is written in two parts behind the same is written in one.
pub proof fn lemma_written_behind(
    before: Seq<Seq<u8>>,
    first: Seq<Seq<u8>>,
    second: Seq<Seq<u8>>,
)
    ensures
        before + first + second == before + (first + second),
{
    assert(before + first + second =~= before + (first + second));
}

proof fn lemma_bytes_apart_after(a: Seq<u8>, b: Seq<u8>, x: Seq<u8>, y: Seq<u8>)
    requires
        same_or_apart(a, b),
        same_or_apart(x, y),
    ensures
        same_or_apart(a + x, b + y),
        a + x == b + y ==> a == b && x == y,
{
    if a == b {
        if x != y {
            let i = choose|i: int| 0 <= i < x.len() && i < y.len() && #[trigger] x[i] != y[i];
            assert((a + x)[a.len() + i] != (b + y)[a.len() + i]);
        }
    } else {
        let i = choose|i: int| 0 <= i < a.len() && i < b.len() && #[trigger] a[i] != b[i];
        assert((a + x)[i] != (b + y)[i]);
    }
}

/// Writes whose bytes are the same or apart stay so when such writes follow.
pub proof fn lemma_writes_apart_after(
    a: Seq<Seq<u8>>,
    b: Seq<Seq<u8>>,
    x: Seq<Seq<u8>>,
    y: Seq<Seq<u8>>,
)
    requires
        same_or_apart(a.flatten(), b.flatten()),
        same_or_apart(x.flatten(), y.flatten()),
    ensures
        same_or_apart((a + x).flatten(), (b + y).flatten()),
        (a + x).flatten() == (b + y).flatten() ==> a.flatten() == b.flatten() && x.flatten()
            == y.flatten(),
        (a + x).flatten().len() == a.flatten().len() + x.flatten().len(),
{
    vstd::seq_lib::lemma_flatten_concat(a, x);
    vstd::seq_lib::lemma_flatten_concat(b, y);
    lemma_bytes_apart_after(a.flatten(), b.flatten(), x.flatten(), y.flatten());
}

pub proof fn lemma_bits_apart(a: u64, b: u64)
    ensures
        same_or_apart(bits_writes(a).flatten(), bits_writes(b).flatten()),
        bits_writes(a).flatten() == bits_writes(b).flatten() ==> a == b,
        bits_writes(a).flatten().len() == 8,
{
    let (x, y) = (vstd::bytes::spec_u64_to_le_bytes(a), vstd::bytes::spec_u64_to_le_bytes(b));
    bits_writes(a).lemma_flatten_one_element();
    bits_writes(b).lemma_flatten_one_element();
    vstd::bytes::lemma_auto_spec_u64_to_from_le_bytes();
    if x != y {
        assert(!(x =~= y));
        let i = choose|i: int| 0 <= i < x.len() && x[i] != y[i];
        assert(x[i] != y[i]);
    }
}

pub proof fn lemma_integer_apart(a: i64, b: i64)
    ensures
        same_or_apart(integer_writes(a).flatten(), integer_writes(b).flatten()),
        integer_writes(a).flatten() == integer_writes(b).flatten() ==> a == b,
        integer_writes(a).flatten().len() == 8,
{
    lemma_bits_apart(a as u64, b as u64);
    assert(a as u64 == b as u64 ==> a == b) by (bit_vector);
}

/// The byte that ends a text occurs in no character's encoding.
proof fn lemma_no_end_in_character(c: char)
    ensures
        !vstd::utf8::encode_scalar(c as u32).contains(TEXT_END),
{
    let v = c as u32;
    assert({
        &&& vstd::utf8::leading_byte_width_1(v) != 0xff
        &&& vstd::utf8::leading_byte_width_2(v) != 0xff
        &&& vstd::utf8::leading_byte_width_3(v) != 0xff
        &&& vstd::utf8::leading_byte_width_4(v) != 0xff
        &&& vstd::utf8::last_continuation_byte(v) != 0xff
        &&& vstd::utf8::second_last_continuation_byte(v) != 0xff
        &&& vstd::utf8::third_last_continuation_byte(v) != 0xff
    }) by (bit_vector);
}

/// The byte that ends a text does not occur in the text.
proof fn lemma_no_end_in_text(text: Seq<char>)
    ensures
        !vstd::utf8::encode_utf8(text).contains(TEXT_END),
    decreases text.len(),
{
    let bytes = vstd::utf8::encode_utf8(text);
    if text.len() > 0 {
        lemma_no_end_in_character(text[0]);
        lemma_no_end_in_text(text.drop_first());
        let head = vstd::utf8::encode_scalar(text[0] as u32);
        let tail = vstd::utf8::encode_utf8(text.drop_first());
        assert forall|i: int| 0 <= i < bytes.len() implies bytes[i] != TEXT_END by {
            if i < head.len() {
                assert(head[i] != TEXT_END);
            } else {
                assert(tail[i - head.len()] != TEXT_END);
            }
        }
    }
}

proof fn lemma_text_bytes(text: Seq<char>)
    ensures
        text_writes(text).flatten() == vstd::utf8::encode_utf8(text) + seq![TEXT_END],
{
    let first = seq![vstd::utf8::encode_utf8(text)];
    let second = seq![seq![TEXT_END]];
    assert(text_writes(text) =~= first + second);
    vstd::seq_lib::lemma_flatten_concat(first, second);
    first.lemma_flatten_one_element();
    second.lemma_flatten_one_element();
}

pub proof fn lemma_text_apart(a: Seq<char>, b: Seq<char>)
    ensures
        same_or_apart(text_writes(a).flatten(), text_writes(b).flatten()),
        text_writes(a).flatten() == text_writes(b).flatten() ==> a == b,
        text_writes(a).flatten().len() > 0,
{
    let (x, y) = (vstd::utf8::encode_utf8(a), vstd::utf8::encode_utf8(b));
    let end = seq![TEXT_END];
    lemma_text_bytes(a);
    lemma_text_bytes(b);
    lemma_no_end_in_text(a);
    lemma_no_end_in_text(b);
    vstd::utf8::encode_utf8_decode_utf8(a);
    vstd::utf8::encode_utf8_decode_utf8(b);
    if x.len() < y.len() {
        assert(y[x.len() as int] != TEXT_END);
        assert((x + end)[x.len() as int] != (y + end)[x.len() as int]);
    } else if y.len() < x.len() {
        assert(x[y.len() as int] != TEXT_END);
        assert((x + end)[y.len() as int] != (y + end)[y.len() as int]);
    } else if x != y {
        assert(!(x =~= y));
        let i = choose|i: int| 0 <= i < x.len() && x[i] != y[i];
        assert((x + end)[i] != (y + end)[i]);
    }
}

pub proof fn lemma_optional_integer_apart(a: Option<i64>, b: Option<i64>)
    ensures
        same_or_apart(optional_integer_writes(a).flatten(), optional_integer_writes(b).flatten()),
        optional_integer_writes(a).flatten() == optional_integer_writes(b).flatten() ==> a == b,
{
    let x = if a is Some { integer_writes(a->0) } else { Seq::empty() };
    let y = if b is Some { integer_writes(b->0) } else { Seq::empty() };
    if a is Some && b is Some {
        lemma_integer_apart(a->0, b->0);
    }
    lemma_optional_apart(a is Some, x, b is Some, y);
    assert(optional_integer_writes(a) =~= optional_writes(a is Some, x));
    assert(optional_integer_writes(b) =~= optional_writes(b is Some, y));
}

pub proof fn lemma_optional_bits_apart(a: Option<u64>, b: Option<u64>)
    ensures
        same_or_apart(optional_bits_writes(a).flatten(), optional_bits_writes(b).flatten()),
        optional_bits_writes(a).flatten() == optional_bits_writes(b).flatten() ==> a == b,
{
    let x = if a is Some { bits_writes(a->0) } else { Seq::empty() };
    let y = if b is Some { bits_writes(b->0) } else { Seq::empty() };
    if a is Some && b is Some {
        lemma_bits_apart(a->0, b->0);
    }
    lemma_optional_apart(a is Some, x, b is Some, y);
    assert(optional_bits_writes(a) =~= optional_writes(a is Some, x));
    assert(optional_bits_writes(b) =~= optional_writes(b is Some, y));
}

pub proof fn lemma_optional_text_apart(a: Option<Seq<char>>, b: Option<Seq<char>>)
    ensures
        same_or_apart(optional_text_writes(a).flatten(), optional_text_writes(b).flatten()),
        optional_text_writes(a).flatten() == optional_text_writes(b).flatten() ==> a == b,
{
    let x = if a is Some { text_writes(a->0) } else { Seq::empty() };
    let y = if b is Some { text_writes(b->0) } else { Seq::empty() };
    if a is Some && b is Some {
        lemma_text_apart(a->0, b->0);
    }
    lemma_optional_apart(a is Some, x, b is Some, y);
    assert(optional_text_writes(a) =~= optional_writes(a is Some, x));
    assert(optional_text_writes(b) =~= optional_writes(b is Some, y));
}

spec fn optional_writes(present: bool, writes: Seq<Seq<u8>>) -> Seq<Seq<u8>> {
    bits_writes(if present { 1 } else { 0 }) + writes
}

proof fn lemma_optional_apart(
    has_a: bool,
    a: Seq<Seq<u8>>,
    has_b: bool,
    b: Seq<Seq<u8>>,
)
    requires
        has_a == has_b ==> same_or_apart(a.flatten(), b.flatten()),
    ensures
        same_or_apart(
            optional_writes(has_a, a).flatten(),
            optional_writes(has_b, b).flatten(),
        ),
        optional_writes(has_a, a).flatten() == optional_writes(has_b, b).flatten() ==> has_a
            == has_b && a.flatten() == b.flatten(),
{
    let (tag_a, tag_b) = (
        if has_a { 1u64 } else { 0u64 },
        if has_b { 1u64 } else { 0u64 },
    );
    lemma_bits_apart(tag_a, tag_b);
    if has_a == has_b {
        lemma_writes_apart_after(bits_writes(tag_a), bits_writes(tag_b), a, b);
    } else {
        let (p, q) = (bits_writes(tag_a).flatten(), bits_writes(tag_b).flatten());
        vstd::seq_lib::lemma_flatten_concat(bits_writes(tag_a), a);
        vstd::seq_lib::lemma_flatten_concat(bits_writes(tag_b), b);
        let i = choose|i: int| 0 <= i < p.len() && i < q.len() && #[trigger] p[i] != q[i];
        assert((p + a.flatten())[i] != (q + b.flatten())[i]);
    }
}

/// The first row's writes come first.
proof fn lemma_rows_writes_first<R>(row_writes: spec_fn(R) -> Seq<Seq<u8>>, rows: Seq<R>)
    requires
        rows.len() > 0,
    ensures
        rows_writes(row_writes, rows) == row_writes(rows.first()) + rows_writes(
            row_writes,
            rows.drop_first(),
        ),
    decreases rows.len(),
{
    if rows.len() == 1 {
        reveal_with_fuel(rows_writes, 2);
        assert(rows_writes(row_writes, rows) =~= row_writes(rows.first()) + rows_writes(
            row_writes,
            rows.drop_first(),
        ));
    } else {
        lemma_rows_writes_first(row_writes, rows.drop_last());
        assert(rows.drop_last().drop_first() =~= rows.drop_first().drop_last());
        assert(rows.drop_last().first() == rows.first());
        assert(rows_writes(row_writes, rows) =~= row_writes(rows.first()) + rows_writes(
            row_writes,
            rows.drop_first(),
        ));
    }
}

/// Rows can be read back from the bytes written of them.
pub proof fn lemma_bytes_give_rows_back<R>(
    row_writes: spec_fn(R) -> Seq<Seq<u8>>,
    a: Seq<R>,
    b: Seq<R>,
)
    requires
        tells_rows_apart(row_writes),
        rows_writes(row_writes, a).flatten() == rows_writes(row_writes, b).flatten(),
    ensures
        a == b,
    decreases a.len(),
{
    if a.len() > 0 {
        lemma_rows_writes_first(row_writes, a);
        vstd::seq_lib::lemma_flatten_concat(
            row_writes(a.first()),
            rows_writes(row_writes, a.drop_first()),
        );
    }
    if b.len() > 0 {
        lemma_rows_writes_first(row_writes, b);
        vstd::seq_lib::lemma_flatten_concat(
            row_writes(b.first()),
            rows_writes(row_writes, b.drop_first()),
        );
    }
    if a.len() == 0 || b.len() == 0 {
        assert(a =~= b);
    } else {
        let (x, y) = (row_writes(a.first()).flatten(), row_writes(b.first()).flatten());
        let rest_a = rows_writes(row_writes, a.drop_first()).flatten();
        let rest_b = rows_writes(row_writes, b.drop_first()).flatten();
        assert(same_or_apart(x, y));
        if x != y {
            let i = choose|i: int| 0 <= i < x.len() && i < y.len() && #[trigger] x[i] != y[i];
            assert((x + rest_a)[i] != (y + rest_b)[i]);
        }
        assert(rest_a =~= (x + rest_a).skip(x.len() as int));
        assert(rest_b =~= (y + rest_b).skip(y.len() as int));
        lemma_bytes_give_rows_back(row_writes, a.drop_first(), b.drop_first());
        assert(a =~= seq![a.first()] + a.drop_first());
        assert(b =~= seq![b.first()] + b.drop_first());
    }
}

/// Writes an unsigned integer to the hasher.
pub(crate) fn write_bits(hasher: &mut DefaultHasher, value: u64)
    ensures
        final(hasher)@ == old(hasher)@ + bits_writes(value),
{
    let bytes = vstd::bytes::u64_to_le_bytes(value);
    hasher.write(bytes.as_slice());
}

/// Writes a signed integer to the hasher.
pub(crate) fn write_integer(hasher: &mut DefaultHasher, value: i64)
    ensures
        final(hasher)@ == old(hasher)@ + integer_writes(value),
{
    write_bits(hasher, value as u64);
}

/// Writes a text to the hasher.
pub(crate) fn write_text(hasher: &mut DefaultHasher, text: &str)
    ensures
        final(hasher)@ == old(hasher)@ + text_writes(text@),
{
    hasher.write(text.as_bytes());
    let end: [u8; 1] = [TEXT_END];
    assert(end@ =~= seq![TEXT_END]);
    hasher.write(&end);
    assert(old(hasher)@.push(vstd::utf8::encode_utf8(text@)).push(seq![TEXT_END]) =~= old(hasher)@
        + text_writes(text@));
}

/// Writes an optional signed integer to the hasher.
pub(crate) fn write_optional_integer(hasher: &mut DefaultHasher, value: Option<i64>)
    ensures
        final(hasher)@ == old(hasher)@ + optional_integer_writes(value),
{
    match value {
        None => write_bits(hasher, 0),
        Some(present) => {
            write_bits(hasher, 1);
            write_integer(hasher, present);
        },
    }
}

/// Writes an optional bit pattern to the hasher.
pub(crate) fn write_optional_bits(hasher: &mut DefaultHasher, value: Option<u64>)
    ensures
        final(hasher)@ == old(hasher)@ + optional_bits_writes(value),
{
    match value {
        None => write_bits(hasher, 0),
        Some(present) => {
            write_bits(hasher, 1);
            write_bits(hasher, present);
        },
    }
}

/// Writes an optional text to the hasher.
pub(crate) fn write_optional_text(hasher: &mut DefaultHasher, text: &Option<String>)
    ensures
        final(hasher)@ == old(hasher)@ + optional_text_writes(optional_text(*text)),
{
    match text {
        None => write_bits(hasher, 0),
        Some(present) => {
            write_bits(hasher, 1);
            write_text(hasher, present.as_str());
        },
    }
}

/// A hasher to which the byte that starts a fingerprint was written.
pub(crate) fn session_table_hasher() -> (hasher: DefaultHasher)
    ensures
        hasher@ == seq![seq![SESSION_TABLE]],
{
    let mut hasher = DefaultHasher::new();
    let start: [u8; 1] = [SESSION_TABLE];
    assert(start@ =~= seq![SESSION_TABLE]);
    hasher.write(&start);
    assert(hasher@ =~= seq![seq![SESSION_TABLE]]);
    hasher
}

} // verus!
