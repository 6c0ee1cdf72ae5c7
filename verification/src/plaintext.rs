//! The layout of the record set before encryption.
//!
//! ```text
//! records    number of entries u32 | entry ...
//! entry      framed label | framed secret | optional username | optional notes
//! optional   0x00 | 0x01 framed text
//! ```
//!
//! Labels, usernames and notes are UTF-8; integers are big-endian. Entries
//! stand in insertion order, so the same store always gives the same bytes.

use vstd::prelude::*;
use vstd::utf8::{decode_utf8, encode_utf8, valid_utf8};
use vstd::utf8::{encode_utf8_decode_utf8, encode_utf8_valid_utf8};
use crate::layout::lemma_regroup;
use crate::memory::wipe_bytes;
use crate::records::{distinct_labels, entries_view, CredentialEntry, Entry, RecordStore};
use crate::wire::{framed, put_framed, put_u32, read_framed, read_u32, read_u8, u32_be};
use crate::wire::{take_framed, take_u32, take_u8};
use crate::wire::{lemma_take_framed_of_encoding, lemma_take_u32_of_encoding};

verus! {

/// The bytes of a text: its UTF-8 encoding, framed.
pub open spec fn encode_text(t: Seq<char>) -> Seq<u8> {
    framed(encode_utf8(t))
}

/// The bytes of an optional text: a tag, then the text if there is one.
pub open spec fn encode_optional(t: Option<Seq<char>>) -> Seq<u8> {
    match t {
        None => seq![0u8],
        Some(x) => seq![1u8] + encode_text(x),
    }
}

/// The bytes of an entry.
pub open spec fn encode_entry(e: Entry) -> Seq<u8> {
    encode_text(e.label) + (framed(e.secret) + (encode_optional(e.username) + encode_optional(
        e.notes,
    )))
}

/// The bytes of entries, one after the other.
pub open spec fn encode_entries(s: Seq<Entry>) -> Seq<u8>
    decreases s.len(),
{
    if s.len() == 0 {
        Seq::<u8>::empty()
    } else {
        encode_entry(s[0]) + encode_entries(s.skip(1))
    }
}

/// The plaintext of a record set.
pub open spec fn encode_records(s: Seq<Entry>) -> Seq<u8> {
    u32_be(s.len() as u32) + encode_entries(s)
}

/// The UTF-8 encoding of the text is short enough for its length prefix.
pub open spec fn text_encodable(t: Seq<char>) -> bool {
    encode_utf8(t).len() <= u32::MAX
}

/// The text, if there is one, is encodable.
pub open spec fn optional_encodable(t: Option<Seq<char>>) -> bool {
    match t {
        None => true,
        Some(x) => text_encodable(x),
    }
}

/// Every field of the entry is short enough for its length prefix.
pub open spec fn entry_encodable(e: Entry) -> bool {
    &&& text_encodable(e.label)
    &&& e.secret.len() <= u32::MAX
    &&& optional_encodable(e.username)
    &&& optional_encodable(e.notes)
}

/// The record set can be written: its entries can be counted in a `u32` and
/// each of them is encodable.
pub open spec fn records_encodable(s: Seq<Entry>) -> bool {
    &&& s.len() <= u32::MAX
    &&& forall|i: int| 0 <= i < s.len() ==> entry_encodable(#[trigger] s[i])
}

/// Takes a text from the front; fails on bytes that are not UTF-8.
pub open spec fn take_text(s: Seq<u8>) -> Option<(Seq<char>, Seq<u8>)> {
    match take_framed(s) {
        None => None,
        Some((bytes, rest)) => if valid_utf8(bytes) {
            Some((decode_utf8(bytes), rest))
        } else {
            None
        },
    }
}

/// Takes an optional text from the front; fails on an unknown tag.
pub open spec fn take_optional(s: Seq<u8>) -> Option<(Option<Seq<char>>, Seq<u8>)> {
    match take_u8(s) {
        None => None,
        Some((t, rest)) => if t == 0 {
            Some((None, rest))
        } else if t == 1 {
            match take_text(rest) {
                None => None,
                Some((text, tail)) => Some((Some(text), tail)),
            }
        } else {
            None
        },
    }
}

/// Takes an entry from the front.
pub open spec fn take_entry(s: Seq<u8>) -> Option<(Entry, Seq<u8>)> {
    match take_text(s) {
        None => None,
        Some((label, r1)) => match take_framed(r1) {
            None => None,
            Some((secret, r2)) => match take_optional(r2) {
                None => None,
                Some((username, r3)) => match take_optional(r3) {
                    None => None,
                    Some((notes, r4)) => Some((Entry { label, secret, username, notes }, r4)),
                },
            },
        },
    }
}

/// Parses `n` entries from the front and appends them to `done`.
pub open spec fn take_entries(s: Seq<u8>, n: nat, done: Seq<Entry>) -> Option<
    (Seq<Entry>, Seq<u8>),
>
    decreases n,
{
    if n == 0 {
        Some((done, s))
    } else {
        match take_entry(s) {
            None => None,
            Some((e, rest)) => take_entries(rest, (n - 1) as nat, done.push(e)),
        }
    }
}

/// The record set that a plaintext holds: as many entries as its count
/// says, nothing behind them, and no label twice; else nothing.
pub open spec fn decode_records(s: Seq<u8>) -> Option<Seq<Entry>> {
    match take_u32(s) {
        None => None,
        Some((n, rest)) => match take_entries(rest, n as nat, Seq::<Entry>::empty()) {
            None => None,
            Some((entries, tail)) => if tail.len() == 0 && distinct_labels(entries) {
                Some(entries)
            } else {
                None
            },
        },
    }
}

/// A text in front of anything is taken back whole.
pub proof fn lemma_take_text_of_encoding(t: Seq<char>, rest: Seq<u8>)
    requires
        text_encodable(t),
    ensures
        take_text(encode_text(t) + rest) == Some((t, rest)),
{
    lemma_take_framed_of_encoding(encode_utf8(t), rest);
    encode_utf8_valid_utf8(t);
    encode_utf8_decode_utf8(t);
}

/// An optional text in front of anything is taken back whole.
pub proof fn lemma_take_optional_of_encoding(t: Option<Seq<char>>, rest: Seq<u8>)
    requires
        optional_encodable(t),
    ensures
        take_optional(encode_optional(t) + rest) == Some((t, rest)),
{
    let s = encode_optional(t) + rest;
    match t {
        None => {
            assert(s.skip(1) =~= rest);
        },
        Some(x) => {
            assert(s.skip(1) =~= encode_text(x) + rest);
            lemma_take_text_of_encoding(x, rest);
        },
    }
}

/// An entry in front of anything is taken back whole.
pub proof fn lemma_take_entry_of_encoding(e: Entry, rest: Seq<u8>)
    requires
        entry_encodable(e),
    ensures
        take_entry(encode_entry(e) + rest) == Some((e, rest)),
{
    let r3 = encode_optional(e.notes) + rest;
    let r2 = encode_optional(e.username) + r3;
    let r1 = framed(e.secret) + r2;
    let b3 = encode_optional(e.notes);
    let b2 = encode_optional(e.username) + b3;
    let b1 = framed(e.secret) + b2;
    lemma_regroup(encode_optional(e.username), b3, rest);
    lemma_regroup(framed(e.secret), b2, rest);
    lemma_regroup(encode_text(e.label), b1, rest);
    lemma_take_text_of_encoding(e.label, r1);
    lemma_take_framed_of_encoding(e.secret, r2);
    lemma_take_optional_of_encoding(e.username, r3);
    lemma_take_optional_of_encoding(e.notes, rest);
}

/// Entries written one after the other are parsed back in the same order.
pub proof fn lemma_take_entries_of_encoding(entries: Seq<Entry>, rest: Seq<u8>, done: Seq<Entry>)
    requires
        forall|i: int| 0 <= i < entries.len() ==> entry_encodable(#[trigger] entries[i]),
    ensures
        take_entries(encode_entries(entries) + rest, entries.len(), done) == Some(
            (done + entries, rest),
        ),
    decreases entries.len(),
{
    if entries.len() == 0 {
        assert(encode_entries(entries) + rest =~= rest);
        assert(done + entries =~= done);
    } else {
        let first = entries[0];
        let others = entries.skip(1);
        let s = encode_entries(entries) + rest;
        let after = encode_entries(others) + rest;
        assert(s == encode_entry(first) + after) by {
            lemma_regroup(encode_entry(first), encode_entries(others), rest);
        }
        assert(take_entry(s) == Some((first, after))) by {
            lemma_take_entry_of_encoding(first, after);
        }
        assert(take_entries(s, entries.len(), done) == take_entries(
            after,
            others.len(),
            done.push(first),
        ));
        assert forall|i: int| 0 <= i < others.len() implies entry_encodable(
            #[trigger] others[i],
        ) by {
            assert(others[i] == entries[i + 1]);
        }
        lemma_take_entries_of_encoding(others, rest, done.push(first));
        assert(done.push(first) + others =~= done + entries);
    }
}

/// Parsing inverts writing: an encodable record set with distinct labels is
/// read back from its plaintext entry for entry, in order.
pub proof fn lemma_records_round_trip(entries: Seq<Entry>)
    requires
        records_encodable(entries),
        distinct_labels(entries),
    ensures
        decode_records(encode_records(entries)) == Some(entries),
{
    let body = encode_entries(entries);
    lemma_take_u32_of_encoding(entries.len() as u32, body);
    assert(body =~= body + Seq::<u8>::empty());
    lemma_take_entries_of_encoding(entries, Seq::<u8>::empty(), Seq::<Entry>::empty());
    assert(Seq::<Entry>::empty() + entries =~= entries);
}

/// Writing one more entry appends its bytes.
pub proof fn lemma_encode_entries_push(s: Seq<Entry>, e: Entry)
    ensures
        encode_entries(s.push(e)) == encode_entries(s) + encode_entry(e),
    decreases s.len(),
{
    let t = s.push(e);
    if s.len() == 0 {
        assert(t.skip(1) =~= Seq::<Entry>::empty());
        assert(encode_entries(t) =~= encode_entry(e) + encode_entries(t.skip(1)));
        assert(encode_entries(t) =~= encode_entries(s) + encode_entry(e));
    } else {
        assert(t.skip(1) =~= s.skip(1).push(e));
        lemma_encode_entries_push(s.skip(1), e);
        lemma_regroup(encode_entry(s[0]), encode_entries(s.skip(1)), encode_entry(e));
    }
}

fn write_text(out: &mut Vec<u8>, text: &str) -> (ok: bool)
    ensures
        ok == text_encodable(text@),
        ok ==> final(out)@ == old(out)@ + encode_text(text@),
{
    put_framed(out, text.as_bytes())
}

fn write_optional(out: &mut Vec<u8>, text: &Option<String>) -> (ok: bool)
    ensures
        ok == optional_encodable(crate::records::text_view(*text)),
        ok ==> final(out)@ == old(out)@ + encode_optional(crate::records::text_view(*text)),
{
    match text {
        None => {
            out.push(0);
            assert(out@ =~= old(out)@ + seq![0u8]);
            true
        },
        Some(t) => {
            out.push(1);
            let ghost mid = out@;
            let ok = write_text(out, t.as_str());
            proof {
                if ok {
                    lemma_regroup(old(out)@, seq![1u8], encode_text(t@));
                    assert(mid =~= old(out)@ + seq![1u8]);
                }
            }
            ok
        },
    }
}

fn write_entry(out: &mut Vec<u8>, entry: &CredentialEntry) -> (ok: bool)
    ensures
        ok == entry_encodable(entry@),
        ok ==> final(out)@ == old(out)@ + encode_entry(entry@),
{
    let ghost e = entry@;
    if !write_text(out, entry.label.as_str()) {
        return false;
    }
    if !put_framed(out, entry.secret.as_slice()) {
        return false;
    }
    if !write_optional(out, &entry.username) {
        return false;
    }
    if !write_optional(out, &entry.notes) {
        return false;
    }
    proof {
        let b3 = encode_optional(e.notes);
        let b2 = encode_optional(e.username) + b3;
        let b1 = framed(e.secret) + b2;
        assert(out@ =~= old(out)@ + (encode_text(e.label) + b1));
    }
    true
}

/// Writes the plaintext of a record set; nothing when the set is not
/// encodable.
pub fn serialize(store: &RecordStore) -> (r: Option<Vec<u8>>)
    ensures
        match r {
            Some(bytes) => records_encodable(store@) && bytes@ == encode_records(store@),
            None => !records_encodable(store@),
        },
{
    let entries = store.list();
    let ghost s = store@;
    assert(s.len() == entries@.len());
    if entries.len() > 0xFFFF_FFFF {
        return None;
    }
    let mut out: Vec<u8> = Vec::new();
    put_u32(&mut out, entries.len() as u32);
    assert(out@ =~= u32_be(s.len() as u32) + encode_entries(s.take(0)));
    let mut i: usize = 0;
    while i < entries.len()
        invariant
            i <= entries.len(),
            s == entries_view(entries@),
            s == store@,
            s.len() <= u32::MAX,
            out@ == u32_be(s.len() as u32) + encode_entries(s.take(i as int)),
            forall|a: int| 0 <= a < i ==> entry_encodable(#[trigger] s[a]),
        decreases entries.len() - i,
    {
        if !write_entry(&mut out, &entries[i]) {
            assert(!entry_encodable(s[i as int]));
            wipe_bytes(&mut out);
            return None;
        }
        proof {
            lemma_encode_entries_push(s.take(i as int), s[i as int]);
            assert(s.take(i + 1) =~= s.take(i as int).push(s[i as int]));
            lemma_regroup(
                u32_be(s.len() as u32),
                encode_entries(s.take(i as int)),
                encode_entry(s[i as int]),
            );
        }
        i += 1;
    }
    assert(s.take(i as int) =~= s);
    Some(out)
}

/// Turns bytes into text with `std::str::from_utf8`, which looks at the
/// bytes where they lie and copies none that are not text. Claimed here: it
/// succeeds exactly on valid UTF-8, and the text it gives is the one that
/// the bytes encode.
#[verifier::external_body]
fn text_from_utf8(bytes: &[u8]) -> (r: Option<String>)
    ensures
        r is Some == valid_utf8(bytes@),
        r matches Some(text) ==> encode_utf8(text@) == bytes@,
{
    match std::str::from_utf8(bytes) {
        Ok(text) => Some(text.to_owned()),
        Err(_) => None,
    }
}

fn read_text(data: &[u8], pos: usize) -> (r: Option<(String, usize)>)
    requires
        pos <= data@.len(),
    ensures
        match take_text(data@.skip(pos as int)) {
            None => r is None,
            Some((t, rest)) => r matches Some((text, next)) && text@ == t && next <= data@.len()
                && rest == data@.skip(next as int),
        },
{
    match read_framed(data, pos) {
        None => None,
        Some((span, next)) => {
            match text_from_utf8(span.slice(data)) {
                None => None,
                Some(text) => {
                    proof {
                        encode_utf8_decode_utf8(text@);
                    }
                    Some((text, next))
                },
            }
        },
    }
}

fn read_optional(data: &[u8], pos: usize) -> (r: Option<(Option<String>, usize)>)
    requires
        pos <= data@.len(),
    ensures
        match take_optional(data@.skip(pos as int)) {
            None => r is None,
            Some((t, rest)) => r matches Some((text, next)) && crate::records::text_view(text) == t
                && next <= data@.len() && rest == data@.skip(next as int),
        },
{
    match read_u8(data, pos) {
        None => None,
        Some((tag, next)) => {
            if tag == 0 {
                Some((None, next))
            } else if tag == 1 {
                match read_text(data, next) {
                    None => None,
                    Some((text, after)) => Some((Some(text), after)),
                }
            } else {
                None
            }
        },
    }
}

fn read_entry(data: &[u8], pos: usize) -> (r: Option<(CredentialEntry, usize)>)
    requires
        pos <= data@.len(),
    ensures
        match take_entry(data@.skip(pos as int)) {
            None => r is None,
            Some((e, rest)) => r matches Some((entry, next)) && entry@ == e && next <= data@.len()
                && rest == data@.skip(next as int),
        },
{
    let (label, p1) = match read_text(data, pos) {
        None => { return None; },
        Some(x) => x,
    };
    let mut entry = CredentialEntry { label, secret: Vec::new(), username: None, notes: None };
    let (span, p2) = match read_framed(data, p1) {
        None => { return None; },
        Some(x) => x,
    };
    entry.secret = span.copy(data);
    let (username, p3) = match read_optional(data, p2) {
        None => { return None; },
        Some(x) => x,
    };
    entry.username = username;
    let (notes, p4) = match read_optional(data, p3) {
        None => { return None; },
        Some(x) => x,
    };
    entry.notes = notes;
    Some((entry, p4))
}

/// Reads a record set from its plaintext; nothing when the plaintext is not
/// exactly one well-formed record set with distinct labels.
pub fn parse(data: &[u8]) -> (r: Option<RecordStore>)
    ensures
        match decode_records(data@) {
            None => r is None,
            Some(entries) => r matches Some(store) && store@ == entries && store.well_formed(),
        },
{
    assert(data@.skip(0) =~= data@);
    let (n, start) = match read_u32(data, 0) {
        None => { return None; },
        Some(x) => x,
    };
    let mut entries: Vec<CredentialEntry> = Vec::new();
    let mut pos: usize = start;
    let mut k: u32 = 0;
    assert(entries_view(entries@) =~= Seq::<Entry>::empty());
    while k < n
        invariant
            k <= n,
            pos <= data@.len(),
            start <= data@.len(),
            take_u32(data@) == Some((n, data@.skip(start as int))),
            take_entries(data@.skip(start as int), n as nat, Seq::<Entry>::empty())
                == take_entries(data@.skip(pos as int), (n - k) as nat, entries_view(entries@)),
        decreases n - k,
    {
        let ghost done = entries_view(entries@);
        match read_entry(data, pos) {
            None => {
                return None;
            },
            Some((entry, next)) => {
                entries.push(entry);
                assert(entries_view(entries@) =~= done.push(entry@));
                pos = next;
                k += 1;
            },
        }
    }
    if pos != data.len() {
        return None;
    }
    RecordStore::from_entries(entries)
}

} // verus!
