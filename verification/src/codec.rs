//! The byte layout that rows are kept in: numbers, single bytes, texts and
//! lists of texts, written one after the other.
//!
//! Every writer has a reader that takes back what was written and hands on the
//! bytes that follow it, so a row is read field by field.

use vstd::bytes::{
    lemma_auto_spec_u64_to_from_le_bytes, spec_u64_from_le_bytes, spec_u64_to_le_bytes,
    u64_from_le_bytes, u64_to_le_bytes,
};
use vstd::prelude::*;
use vstd::slice::{slice_subrange, slice_to_vec};
use vstd::utf8::{
    decode_utf8, decode_utf8_encode_utf8, encode_utf8, encode_utf8_decode_utf8,
    encode_utf8_valid_utf8, valid_utf8,
};

verus! {

/// The eight bytes of a number, the low byte first.
pub open spec fn number_bytes(v: u64) -> Seq<u8> {
    spec_u64_to_le_bytes(v)
}

/// The bytes of a text: the length of its UTF-8 form as a number, then that form.
pub open spec fn text_bytes(s: Seq<char>) -> Seq<u8> {
    number_bytes(encode_utf8(s).len() as u64) + encode_utf8(s)
}

/// A text whose length in bytes can be written as a number.
pub open spec fn text_fits(s: Seq<char>) -> bool {
    encode_utf8(s).len() <= u64::MAX
}

/// The texts of a list of strings.
pub open spec fn texts(list: Seq<String>) -> Seq<Seq<char>> {
    Seq::new(list.len(), |i: int| list[i]@)
}

/// The bytes of the texts of a list, in order, each as `text_bytes` gives it.
pub open spec fn texts_bytes(list: Seq<Seq<char>>) -> Seq<u8>
    decreases list.len(),
{
    if list.len() == 0 {
        Seq::empty()
    } else {
        texts_bytes(list.drop_last()) + text_bytes(list.last())
    }
}

/// Every text of the list fits.
pub open spec fn texts_fit(list: Seq<Seq<char>>) -> bool {
    forall|i: int| 0 <= i < list.len() ==> text_fits(#[trigger] list[i])
}

/// The bytes of a list of texts: how many there are, then the texts.
pub open spec fn list_bytes(list: Seq<Seq<char>>) -> Seq<u8> {
    number_bytes(list.len() as u64) + texts_bytes(list)
}

/// Reads a number from the front of `b`: the number and the bytes after it.
pub open spec fn take_number(b: Seq<u8>) -> Option<(u64, Seq<u8>)> {
    if b.len() >= 8 {
        Some((spec_u64_from_le_bytes(b.subrange(0, 8)), b.skip(8)))
    } else {
        None
    }
}

/// Reads one byte from the front of `b`.
pub open spec fn take_byte(b: Seq<u8>) -> Option<(u8, Seq<u8>)> {
    if b.len() >= 1 {
        Some((b[0], b.skip(1)))
    } else {
        None
    }
}

/// Reads a text from the front of `b`: a length, then that many bytes of valid UTF-8.
pub open spec fn take_text(b: Seq<u8>) -> Option<(Seq<char>, Seq<u8>)> {
    match take_number(b) {
        Some((n, rest)) => if n <= rest.len() && valid_utf8(rest.take(n as int)) {
            Some((decode_utf8(rest.take(n as int)), rest.skip(n as int)))
        } else {
            None
        },
        None => None,
    }
}

/// Reads `n` texts from the front of `b`.
pub open spec fn take_texts(b: Seq<u8>, n: nat) -> Option<(Seq<Seq<char>>, Seq<u8>)>
    decreases n,
{
    if n == 0 {
        Some((Seq::empty(), b))
    } else {
        match take_text(b) {
            Some((first, rest)) => match take_texts(rest, (n - 1) as nat) {
                Some((others, end)) => Some((seq![first] + others, end)),
                None => None,
            },
            None => None,
        }
    }
}

/// Reads a list of texts from the front of `b`: a count, then that many texts.
pub open spec fn take_list(b: Seq<u8>) -> Option<(Seq<Seq<char>>, Seq<u8>)> {
    match take_number(b) {
        Some((n, rest)) => take_texts(rest, n as nat),
        None => None,
    }
}

/// A number that was written is read back, and the bytes behind it are handed on.
pub proof fn lemma_take_number(v: u64, rest: Seq<u8>)
    ensures
        take_number(number_bytes(v) + rest) == Some((v, rest)),
{
    lemma_auto_spec_u64_to_from_le_bytes();
    let b = number_bytes(v) + rest;
    assert(b.subrange(0, 8) =~= number_bytes(v));
    assert(b.skip(8) =~= rest);
}

/// A byte that was written is read back.
pub proof fn lemma_take_byte(v: u8, rest: Seq<u8>)
    ensures
        take_byte(seq![v] + rest) == Some((v, rest)),
{
    let b = seq![v] + rest;
    assert(b.skip(1) =~= rest);
}

/// A text that was written is read back.
pub proof fn lemma_take_text(s: Seq<char>, rest: Seq<u8>)
    requires
        text_fits(s),
    ensures
        take_text(text_bytes(s) + rest) == Some((s, rest)),
{
    let body = encode_utf8(s);
    let n = body.len() as u64;
    assert(text_bytes(s) + rest =~= number_bytes(n) + (body + rest));
    lemma_take_number(n, body + rest);
    assert((body + rest).take(n as int) =~= body);
    assert((body + rest).skip(n as int) =~= rest);
    encode_utf8_valid_utf8(s);
    encode_utf8_decode_utf8(s);
}

/// The bytes of a list begin with the bytes of its first text.
pub proof fn lemma_texts_bytes_front(list: Seq<Seq<char>>)
    requires
        list.len() > 0,
    ensures
        texts_bytes(list) == text_bytes(list[0]) + texts_bytes(list.skip(1)),
    decreases list.len(),
{
    if list.len() == 1 {
        assert(list.drop_last() =~= Seq::<Seq<char>>::empty());
        assert(list.skip(1) =~= Seq::<Seq<char>>::empty());
        assert(texts_bytes(list.drop_last()) =~= Seq::<u8>::empty());
        assert(texts_bytes(list.skip(1)) =~= Seq::<u8>::empty());
        assert(texts_bytes(list) =~= text_bytes(list[0]) + texts_bytes(list.skip(1)));
    } else {
        let init = list.drop_last();
        lemma_texts_bytes_front(init);
        assert(init.skip(1) =~= list.skip(1).drop_last());
        assert(list.skip(1).last() == list.last());
        assert(init[0] == list[0]);
        assert(texts_bytes(list) =~= text_bytes(list[0]) + texts_bytes(list.skip(1)));
    }
}

/// The texts that were written are read back.
pub proof fn lemma_take_texts(list: Seq<Seq<char>>, rest: Seq<u8>)
    requires
        texts_fit(list),
    ensures
        take_texts(texts_bytes(list) + rest, list.len()) == Some((list, rest)),
    decreases list.len(),
{
    if list.len() == 0 {
        assert(texts_bytes(list) + rest =~= rest);
        assert(list =~= Seq::<Seq<char>>::empty());
    } else {
        let tail = list.skip(1);
        lemma_texts_bytes_front(list);
        assert(texts_bytes(list) + rest =~= text_bytes(list[0]) + (texts_bytes(tail) + rest));
        lemma_take_text(list[0], texts_bytes(tail) + rest);
        assert forall|i: int| 0 <= i < tail.len() implies text_fits(#[trigger] tail[i]) by {
            assert(tail[i] == list[i + 1]);
        }
        lemma_take_texts(tail, rest);
        assert(seq![list[0]] + tail =~= list);
    }
}

/// A list that was written is read back.
pub proof fn lemma_take_list(list: Seq<Seq<char>>, rest: Seq<u8>)
    requires
        texts_fit(list),
        list.len() <= u64::MAX,
    ensures
        take_list(list_bytes(list) + rest) == Some((list, rest)),
{
    let n = list.len() as u64;
    assert(list_bytes(list) + rest =~= number_bytes(n) + (texts_bytes(list) + rest));
    lemma_take_number(n, texts_bytes(list) + rest);
    lemma_take_texts(list, rest);
}

/// A number that was read stood at the front, written as `number_bytes` writes it.
pub proof fn lemma_number_taken(b: Seq<u8>)
    requires
        take_number(b) is Some,
    ensures
        b == number_bytes(take_number(b).unwrap().0) + take_number(b).unwrap().1,
        number_bytes(take_number(b).unwrap().0).len() == 8,
{
    lemma_auto_spec_u64_to_from_le_bytes();
    let front = b.subrange(0, 8);
    assert(spec_u64_to_le_bytes(spec_u64_from_le_bytes(front)) == front);
    assert(b =~= front + b.skip(8));
}

/// A byte that was read stood at the front.
pub proof fn lemma_byte_taken(b: Seq<u8>)
    requires
        take_byte(b) is Some,
    ensures
        b == seq![take_byte(b).unwrap().0] + take_byte(b).unwrap().1,
{
    assert(b =~= seq![b[0]] + b.skip(1));
}

/// A text that was read stood at the front, written as `text_bytes` writes it.
pub proof fn lemma_text_taken(b: Seq<u8>)
    requires
        take_text(b) is Some,
    ensures
        b == text_bytes(take_text(b).unwrap().0) + take_text(b).unwrap().1,
        text_fits(take_text(b).unwrap().0),
{
    lemma_number_taken(b);
    let (n, rest) = take_number(b).unwrap();
    let body = rest.take(n as int);
    decode_utf8_encode_utf8(body);
    assert(rest =~= body + rest.skip(n as int));
    assert(b =~= text_bytes(decode_utf8(body)) + rest.skip(n as int));
}

/// Texts that were read stood at the front, written as `texts_bytes` writes them.
pub proof fn lemma_texts_taken(b: Seq<u8>, n: nat)
    requires
        take_texts(b, n) is Some,
    ensures
        b == texts_bytes(take_texts(b, n).unwrap().0) + take_texts(b, n).unwrap().1,
        texts_fit(take_texts(b, n).unwrap().0),
        take_texts(b, n).unwrap().0.len() == n,
    decreases n,
{
    if n == 0 {
        assert(b =~= texts_bytes(Seq::<Seq<char>>::empty()) + b);
    } else {
        lemma_text_taken(b);
        let (first, rest) = take_text(b).unwrap();
        lemma_texts_taken(rest, (n - 1) as nat);
        let (others, end) = take_texts(rest, (n - 1) as nat).unwrap();
        let list = seq![first] + others;
        lemma_texts_bytes_front(list);
        assert(list.skip(1) =~= others);
        assert(b =~= texts_bytes(list) + end);
    }
}

/// A list that was read stood at the front, written as `list_bytes` writes it.
pub proof fn lemma_list_taken(b: Seq<u8>)
    requires
        take_list(b) is Some,
    ensures
        b == list_bytes(take_list(b).unwrap().0) + take_list(b).unwrap().1,
        texts_fit(take_list(b).unwrap().0),
        take_list(b).unwrap().0.len() <= u64::MAX,
{
    lemma_number_taken(b);
    let (n, rest) = take_number(b).unwrap();
    lemma_texts_taken(rest, n as nat);
    let (list, end) = take_texts(rest, n as nat).unwrap();
    assert(b =~= list_bytes(list) + end);
}

/// Every number takes eight bytes when written.
pub proof fn lemma_number_bytes_len()
    ensures
        forall|v: u64| #[trigger] number_bytes(v).len() == 8,
{
    lemma_auto_spec_u64_to_from_le_bytes();
}

/// How many bytes a text takes when written.
pub proof fn lemma_text_bytes_len(s: Seq<char>)
    ensures
        text_bytes(s).len() == 8 + encode_utf8(s).len(),
{
    lemma_auto_spec_u64_to_from_le_bytes();
}

/// How many bytes a list takes when written: eight for the count, and for
/// each text what the text takes.
pub proof fn lemma_list_bytes_len(list: Seq<Seq<char>>)
    ensures
        list_bytes(list).len() == 8 + texts_bytes(list).len(),
        list.len() > 0 ==> texts_bytes(list).len() == texts_bytes(list.drop_last()).len()
            + text_bytes(list.last()).len(),
        list.len() == 0 ==> texts_bytes(list).len() == 0,
{
    lemma_auto_spec_u64_to_from_le_bytes();
}

/// A beginning of a list takes no more bytes than the list.
pub proof fn lemma_texts_bytes_grow(list: Seq<Seq<char>>, n: int)
    requires
        0 <= n <= list.len(),
    ensures
        texts_bytes(list.take(n)).len() <= texts_bytes(list).len(),
    decreases list.len() - n,
{
    if n < list.len() {
        lemma_texts_bytes_grow(list, n + 1);
        let longer = list.take(n + 1);
        assert(longer.drop_last() =~= list.take(n));
    } else {
        assert(list.take(n) =~= list);
    }
}

/// `String::from_utf8`: the text that `bytes` spell in UTF-8, and nothing where
/// they are not valid UTF-8.
#[verifier::external_body]
fn text_from_utf8(bytes: Vec<u8>) -> (r: Option<String>)
    ensures
        r is Some <==> valid_utf8(bytes@),
        r is Some ==> r.unwrap()@ == decode_utf8(bytes@),
{
    String::from_utf8(bytes).ok()
}

/// Appends a number to `out`.
pub fn write_number(out: &mut Vec<u8>, v: u64)
    ensures
        final(out)@ == old(out)@ + number_bytes(v),
{
    let mut b = u64_to_le_bytes(v);
    out.append(&mut b);
}

/// Appends one byte to `out`.
pub fn write_byte(out: &mut Vec<u8>, v: u8)
    ensures
        final(out)@ == old(out)@ + seq![v],
{
    out.push(v);
    assert(out@ =~= old(out)@ + seq![v]);
}

/// Appends a text to `out`.
pub fn write_text(out: &mut Vec<u8>, s: &str)
    ensures
        final(out)@ == old(out)@ + text_bytes(s@),
        text_fits(s@),
{
    let bytes = s.as_bytes();
    let n: usize = bytes.len();
    write_number(out, n as u64);
    let mut body = slice_to_vec(bytes);
    out.append(&mut body);
    assert(out@ =~= old(out)@ + text_bytes(s@));
}

/// Appends a list of texts to `out`.
pub fn write_list(out: &mut Vec<u8>, list: &Vec<String>)
    ensures
        final(out)@ == old(out)@ + list_bytes(texts(list@)),
        texts_fit(texts(list@)),
        texts(list@).len() <= u64::MAX,
{
    let n: usize = list.len();
    write_number(out, n as u64);
    let ghost start = out@;
    let mut i: usize = 0;
    while i < n
        invariant
            n == list.len(),
            i <= n,
            out@ == start + texts_bytes(texts(list@).take(i as int)),
            texts_fit(texts(list@).take(i as int)),
        decreases n - i,
    {
        write_text(out, list[i].as_str());
        proof {
            let all = texts(list@);
            let done = all.take(i as int + 1);
            assert(done.drop_last() =~= all.take(i as int));
            assert(done.last() == list[i as int]@);
            assert(out@ =~= start + texts_bytes(done));
        }
        i += 1;
    }
    proof {
        assert(texts(list@).take(n as int) =~= texts(list@));
        assert(out@ =~= old(out)@ + list_bytes(texts(list@)));
    }
}

/// Reads a number at `at`: the number and the place behind it.
pub fn read_number(b: &[u8], at: usize) -> (r: Option<(u64, usize)>)
    requires
        at <= b@.len(),
    ensures
        match r {
            Some((v, next)) => at <= next <= b@.len() && take_number(b@.skip(at as int)) == Some(
                (v, b@.skip(next as int)),
            ),
            None => take_number(b@.skip(at as int)) is None,
        },
{
    if b.len() - at < 8 {
        return None;
    }
    let v = u64_from_le_bytes(slice_subrange(b, at, at + 8));
    proof {
        let from = b@.skip(at as int);
        assert(from.subrange(0, 8) =~= b@.subrange(at as int, at + 8));
        assert(from.skip(8) =~= b@.skip(at + 8));
    }
    Some((v, at + 8))
}

/// Reads one byte at `at`.
pub fn read_byte(b: &[u8], at: usize) -> (r: Option<(u8, usize)>)
    requires
        at <= b@.len(),
    ensures
        match r {
            Some((v, next)) => at <= next <= b@.len() && take_byte(b@.skip(at as int)) == Some(
                (v, b@.skip(next as int)),
            ),
            None => take_byte(b@.skip(at as int)) is None,
        },
{
    if b.len() - at < 1 {
        return None;
    }
    let v = b[at];
    proof {
        assert(b@.skip(at as int).skip(1) =~= b@.skip(at + 1));
    }
    Some((v, at + 1))
}

/// Reads a text at `at`.
pub fn read_text(b: &[u8], at: usize) -> (r: Option<(String, usize)>)
    requires
        at <= b@.len(),
    ensures
        match r {
            Some((s, next)) => at <= next <= b@.len() && take_text(b@.skip(at as int)) == Some(
                (s@, b@.skip(next as int)),
            ),
            None => take_text(b@.skip(at as int)) is None,
        },
{
    let (n, from) = match read_number(b, at) {
        Some(found) => found,
        None => { return None; },
    };
    let left: usize = b.len() - from;
    if n > left as u64 {
        return None;
    }
    let len: usize = n as usize;
    let body = slice_to_vec(slice_subrange(b, from, from + len));
    proof {
        let rest = b@.skip(from as int);
        assert(rest.take(n as int) =~= body@);
        assert(rest.skip(n as int) =~= b@.skip(from + len));
    }
    match text_from_utf8(body) {
        Some(s) => Some((s, from + len)),
        None => None,
    }
}

/// Reads a list of texts at `at`.
pub fn read_list(b: &[u8], at: usize) -> (r: Option<(Vec<String>, usize)>)
    requires
        at <= b@.len(),
    ensures
        match r {
            Some((list, next)) => at <= next <= b@.len() && take_list(b@.skip(at as int)) == Some(
                (texts(list@), b@.skip(next as int)),
            ),
            None => take_list(b@.skip(at as int)) is None,
        },
{
    let (n, from) = match read_number(b, at) {
        Some(found) => found,
        None => { return None; },
    };
    let mut list: Vec<String> = Vec::new();
    let mut place: usize = from;
    let mut i: u64 = 0;
    while i < n
        invariant
            i <= n,
            from <= place <= b@.len(),
            list@.len() == i,
            take_number(b@.skip(at as int)) == Some((n, b@.skip(from as int))),
            take_texts(b@.skip(from as int), n as nat) == match take_texts(
                b@.skip(place as int),
                (n - i) as nat,
            ) {
                Some((others, end)) => Some((texts(list@) + others, end)),
                None => None,
            },
        decreases n - i,
    {
        let ghost before = texts(list@);
        match read_text(b, place) {
            Some((s, next)) => {
                list.push(s);
                proof {
                    let here = b@.skip(place as int);
                    let ahead = b@.skip(next as int);
                    assert(texts(list@) =~= before.push(s@));
                    match take_texts(ahead, (n - i - 1) as nat) {
                        Some((others, end)) => {
                            assert(before + (seq![s@] + others) =~= texts(list@) + others);
                        },
                        None => {},
                    }
                }
                place = next;
            },
            None => {
                return None;
            },
        }
        i += 1;
    }
    proof {
        assert(texts(list@) + Seq::<Seq<char>>::empty() =~= texts(list@));
    }
    Some((list, place))
}

/// Takes the bytes that `s` needs when written out of `room`: what is left, or
/// nothing where the text needs more.
pub fn room_after_text(s: &str, room: u64) -> (left: Option<u64>)
    ensures
        match left {
            Some(rest) => text_bytes(s@).len() + rest == room,
            None => text_bytes(s@).len() > room,
        },
{
    proof {
        lemma_text_bytes_len(s@);
    }
    let n: usize = s.as_bytes().len();
    if room < 8 || room - 8 < n as u64 {
        None
    } else {
        Some(room - 8 - n as u64)
    }
}

/// Takes the bytes that a list needs when written out of `room`: what is
/// left, or nothing where the list needs more.
pub fn room_after_list(list: &Vec<String>, room: u64) -> (left: Option<u64>)
    ensures
        match left {
            Some(rest) => list_bytes(texts(list@)).len() + rest == room,
            None => list_bytes(texts(list@)).len() > room,
        },
{
    let ghost all = texts(list@);
    proof {
        lemma_list_bytes_len(all);
    }
    if room < 8 {
        return None;
    }
    let mut left: u64 = room - 8;
    let mut i: usize = 0;
    proof {
        lemma_list_bytes_len(all.take(0));
    }
    while i < list.len()
        invariant
            i <= list@.len(),
            all == texts(list@),
            room >= 8,
            list_bytes(all).len() == 8 + texts_bytes(all).len(),
            texts_bytes(all.take(i as int)).len() + left == room - 8,
        decreases list@.len() - i,
    {
        proof {
            let done = all.take(i as int + 1);
            lemma_list_bytes_len(done);
            assert(done.drop_last() =~= all.take(i as int));
            assert(done.last() == list@[i as int]@);
            lemma_texts_bytes_grow(all, i as int + 1);
        }
        match room_after_text(list[i].as_str(), left) {
            Some(rest) => {
                left = rest;
            },
            None => {
                return None;
            },
        }
        i += 1;
    }
    proof {
        assert(all.take(list@.len() as int) =~= all);
    }
    Some(left)
}

} // verus!
