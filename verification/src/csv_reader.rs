//! Reading a single-column CSV file back, as a specification, and the law
//! that reading undoes rendering.
//!
//! The reader is the usual one for files of one field per record: a field
//! that starts with a quote runs to the next quote that is not doubled, any
//! other field runs to the end of its line, and an empty line is no record.

use crate::output::{
    csv_bytes, csv_double_quotes, csv_is_special, csv_needs_quotes, csv_record, utf8_of_each,
};
use vstd::prelude::*;
use vstd::utf8::{decode_utf8, encode_utf8, encode_utf8_decode_utf8};

verus! {

/// The rest of a quoted field, read from behind its opening quote: the
/// field's bytes, with doubled quotes taken as one, and what follows the
/// closing quote. `None` if the field is never closed.
pub open spec fn csv_read_quoted(bytes: Seq<u8>) -> Option<(Seq<u8>, Seq<u8>)>
    decreases bytes.len(),
{
    if bytes.len() == 0 {
        None
    } else if bytes[0] == 0x22 {
        if bytes.len() >= 2 && bytes[1] == 0x22 {
            match csv_read_quoted(bytes.skip(2)) {
                Some((field, rest)) => Some((seq![0x22u8] + field, rest)),
                None => None,
            }
        } else {
            Some((Seq::empty(), bytes.skip(1)))
        }
    } else {
        match csv_read_quoted(bytes.skip(1)) {
            Some((field, rest)) => Some((seq![bytes[0]] + field, rest)),
            None => None,
        }
    }
}

/// A field without quotes, read to the end of its line: the field's bytes
/// and what follows the line feed. `None` if the line does not end, or if it
/// holds a byte that only a quoted field may hold.
pub open spec fn csv_read_bare(bytes: Seq<u8>) -> Option<(Seq<u8>, Seq<u8>)>
    decreases bytes.len(),
{
    if bytes.len() == 0 {
        None
    } else if bytes[0] == 0x0a {
        Some((Seq::empty(), bytes.skip(1)))
    } else if csv_is_special(bytes[0]) {
        None
    } else {
        match csv_read_bare(bytes.skip(1)) {
            Some((field, rest)) => Some((seq![bytes[0]] + field, rest)),
            None => None,
        }
    }
}

/// One record of one field, read from the head of `bytes`: the field and
/// what follows the record.
pub open spec fn csv_read_record(bytes: Seq<u8>) -> Option<(Seq<u8>, Seq<u8>)> {
    if bytes.len() == 0 || bytes[0] == 0x0a {
        None
    } else if bytes[0] == 0x22 {
        match csv_read_quoted(bytes.skip(1)) {
            Some((field, rest)) => if rest.len() > 0 && rest[0] == 0x0a {
                Some((field, rest.skip(1)))
            } else {
                None
            },
            None => None,
        }
    } else {
        csv_read_bare(bytes)
    }
}

/// The fields of a whole file, one per record, in order. `None` if the file
/// is not well formed.
pub open spec fn csv_read(bytes: Seq<u8>) -> Option<Seq<Seq<u8>>>
    decreases bytes.len(),
{
    if bytes.len() == 0 {
        Some(Seq::empty())
    } else {
        match csv_read_record(bytes) {
            Some((field, rest)) => if rest.len() < bytes.len() {
                match csv_read(rest) {
                    Some(fields) => Some(seq![field] + fields),
                    None => None,
                }
            } else {
                None
            },
            None => None,
        }
    }
}

/// A field with its quotes doubled, then a closing quote and a line feed,
/// reads back as the field.
proof fn lemma_read_quoted(field: Seq<u8>, tail: Seq<u8>)
    ensures
        csv_read_quoted(csv_double_quotes(field) + seq![0x22u8, 0x0au8] + tail) == Some(
            (field, seq![0x0au8] + tail),
        ),
    decreases field.len(),
{
    let end = seq![0x22u8, 0x0au8] + tail;
    let whole = csv_double_quotes(field) + seq![0x22u8, 0x0au8] + tail;
    assert(whole == csv_double_quotes(field) + end);
    if field.len() == 0 {
        assert(whole == end);
        assert(whole.skip(1) == seq![0x0au8] + tail);
    } else {
        let inner = csv_double_quotes(field.drop_first()) + seq![0x22u8, 0x0au8] + tail;
        lemma_read_quoted(field.drop_first(), tail);
        if field.first() == 0x22 {
            assert(whole == seq![0x22u8, 0x22u8] + inner);
            assert(whole.skip(2) == inner);
        } else {
            assert(whole == seq![field.first()] + inner);
            assert(whole.skip(1) == inner);
        }
        assert(seq![field.first()] + field.drop_first() == field);
    }
}

/// A field that needs no quotes, then a line feed, reads back as the field.
proof fn lemma_read_bare(field: Seq<u8>, tail: Seq<u8>)
    requires
        !csv_needs_quotes(field),
    ensures
        csv_read_bare(field.push(0x0au8) + tail) == Some((field, tail)),
    decreases field.len(),
{
    let whole = field.push(0x0au8) + tail;
    if field.len() == 0 {
        assert(whole.skip(1) == tail);
    } else {
        let inner = field.drop_first().push(0x0au8) + tail;
        assert(!csv_is_special(field[0]));
        assert(!csv_needs_quotes(field.drop_first())) by {
            if csv_needs_quotes(field.drop_first()) {
                let i = choose|i: int|
                    0 <= i < field.drop_first().len() && csv_is_special(
                        #[trigger] field.drop_first()[i],
                    );
                assert(csv_is_special(field[i + 1]));
            }
        }
        lemma_read_bare(field.drop_first(), tail);
        assert(whole.skip(1) == inner);
        assert(whole[0] == field[0]);
        assert(seq![field[0]] + field.drop_first() == field);
    }
}

/// A record, whatever follows it, reads back as its field and what follows.
pub proof fn lemma_read_record(field: Seq<u8>, tail: Seq<u8>)
    ensures
        csv_read_record(csv_record(field) + tail) == Some((field, tail)),
        csv_record(field).len() > 0,
{
    let whole = csv_record(field) + tail;
    if field.len() == 0 || csv_needs_quotes(field) {
        let quoted = csv_double_quotes(field) + seq![0x22u8, 0x0au8] + tail;
        if field.len() == 0 {
            assert(csv_record(field) == seq![0x22u8] + csv_double_quotes(field) + seq![
                0x22u8,
                0x0au8,
            ]);
        }
        assert(whole == seq![0x22u8] + quoted);
        assert(whole.skip(1) == quoted);
        lemma_read_quoted(field, tail);
        assert((seq![0x0au8] + tail).skip(1) == tail);
    } else {
        assert(!csv_is_special(field[0]));
        assert(whole[0] == field[0]);
        lemma_read_bare(field, tail);
    }
}

/// The file for a batch is the record of the first secret followed by the
/// file for the others.
proof fn lemma_csv_bytes_front(batch: Seq<Seq<char>>)
    requires
        batch.len() > 0,
    ensures
        csv_bytes(batch) == csv_record(encode_utf8(batch.first())) + csv_bytes(batch.drop_first()),
    decreases batch.len(),
{
    if batch.len() == 1 {
        assert(batch.drop_last() == batch.drop_first());
        assert(csv_bytes(batch.drop_first()) == Seq::<u8>::empty());
        assert(batch.last() == batch.first());
    } else {
        lemma_csv_bytes_front(batch.drop_last());
        assert(batch.drop_last().first() == batch.first());
        assert(batch.drop_last().drop_first() == batch.drop_first().drop_last());
        assert(batch.drop_first().last() == batch.last());
    }
}

/// Reading undoes rendering: the CSV file of any batch reads back as one
/// record per secret, in order, each field the UTF-8 of its secret, byte for
/// byte. Decoded, each field is the secret itself.
pub proof fn lemma_csv_round_trip(batch: Seq<Seq<char>>)
    ensures
        csv_read(csv_bytes(batch)) == Some(utf8_of_each(batch)),
        forall|i: int| 0 <= i < batch.len() ==> decode_utf8(#[trigger] utf8_of_each(batch)[i]) == batch[i],
    decreases batch.len(),
{
    assert forall|i: int| 0 <= i < batch.len() implies decode_utf8(#[trigger] utf8_of_each(batch)[i])
        == batch[i] by {
        encode_utf8_decode_utf8(batch[i]);
    }
    if batch.len() == 0 {
        assert(utf8_of_each(batch) == Seq::<Seq<u8>>::empty());
    } else {
        let field = encode_utf8(batch.first());
        let rest = csv_bytes(batch.drop_first());
        lemma_csv_bytes_front(batch);
        lemma_read_record(field, rest);
        lemma_csv_round_trip(batch.drop_first());
        assert(utf8_of_each(batch) == seq![field] + utf8_of_each(batch.drop_first()));
    }
}

} // verus!
