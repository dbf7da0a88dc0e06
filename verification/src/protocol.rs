//! Wire-protocol text rules: frames, trimming, usernames, command tokens.
//!
//! Every frame on the wire is a line of UTF-8 bytes terminated by `\n`.  The
//! functions here work on plain byte vectors so that each one's behaviour is
//! stated exactly over `Seq<u8>`.

use vstd::prelude::*;

verus! {

/// A byte the protocol treats as whitespace when trimming a line.
pub open spec fn is_space(b: u8) -> bool {
    b == 32 || b == 9 || b == 10 || b == 13
}

/// `s` with every leading whitespace byte removed.
pub open spec fn trim_front(s: Seq<u8>) -> Seq<u8>
    decreases s.len(),
{
    if s.len() > 0 && is_space(s[0]) {
        trim_front(s.skip(1))
    } else {
        s
    }
}

/// `s` with every trailing whitespace byte removed.
pub open spec fn trim_back(s: Seq<u8>) -> Seq<u8>
    decreases s.len(),
{
    if s.len() > 0 && is_space(s[s.len() - 1]) {
        trim_back(s.take(s.len() - 1))
    } else {
        s
    }
}

/// `s` with whitespace removed from both ends.
pub open spec fn trim_spec(s: Seq<u8>) -> Seq<u8> {
    trim_back(trim_front(s))
}

/// Exec mirror of [`is_space`].
pub fn is_space_byte(b: u8) -> (r: bool)
    ensures
        r == is_space(b),
{
    b == 32 || b == 9 || b == 10 || b == 13
}

/// Remove leading and trailing whitespace bytes from a line.
pub fn trim_bytes(v: &Vec<u8>) -> (r: Vec<u8>)
    ensures
        r@ == trim_spec(v@),
{
    let mut start: usize = 0;
    proof {
        assert(v@.skip(0) =~= v@);
    }
    while start < v.len() && is_space_byte(v[start])
        invariant
            start <= v@.len(),
            trim_front(v@) == trim_front(v@.skip(start as int)),
        decreases v@.len() - start,
    {
        proof {
            assert(v@.skip(start as int).skip(1) =~= v@.skip(start as int + 1));
        }
        start = start + 1;
    }
    proof {
        assert(trim_front(v@) == v@.skip(start as int));
    }
    let mut end: usize = v.len();
    proof {
        let t = v@.skip(start as int);
        assert(t.take(v@.len() - start) =~= t);
    }
    while end > start && is_space_byte(v[end - 1])
        invariant
            start <= end <= v@.len(),
            trim_front(v@) == v@.skip(start as int),
            trim_back(v@.skip(start as int)) == trim_back(
                v@.skip(start as int).take(end - start),
            ),
        decreases end,
    {
        proof {
            let t = v@.skip(start as int);
            let k = end - start;
            assert(t.take(k)[k - 1] == v@[end - 1]);
            assert(t.take(k).take(k - 1) =~= t.take(k - 1));
        }
        end = end - 1;
    }
    proof {
        let t = v@.skip(start as int);
        let k = end - start;
        if end > start {
            assert(t.take(k)[k - 1] == v@[end - 1]);
        }
        assert(trim_spec(v@) == t.take(k));
    }
    let mut r: Vec<u8> = Vec::new();
    let mut i: usize = start;
    while i < end
        invariant
            start <= i <= end <= v@.len(),
            r@ == v@.skip(start as int).take(i - start),
        decreases end - i,
    {
        r.push(v[i]);
        proof {
            assert(v@.skip(start as int).take(i + 1 - start) =~= v@.skip(start as int).take(
                i - start,
            ).push(v@[i as int]));
        }
        i = i + 1;
    }
    r
}

/// Byte-for-byte equality of two byte vectors.
pub fn bytes_eq(a: &Vec<u8>, b: &Vec<u8>) -> (r: bool)
    ensures
        r == (a@ == b@),
{
    if a.len() != b.len() {
        return false;
    }
    let mut i: usize = 0;
    while i < a.len()
        invariant
            i <= a@.len(),
            a@.len() == b@.len(),
            forall|k: int| 0 <= k < i ==> a@[k] == b@[k],
        decreases a@.len() - i,
    {
        if a[i] != b[i] {
            return false;
        }
        i = i + 1;
    }
    proof {
        assert(a@ =~= b@);
    }
    true
}

/// Append every byte of `src` to `dst`.
pub fn extend_bytes(dst: &mut Vec<u8>, src: &Vec<u8>)
    ensures
        final(dst)@ == old(dst)@ + src@,
{
    let mut i: usize = 0;
    while i < src.len()
        invariant
            i <= src@.len(),
            dst@ == old(dst)@ + src@.take(i as int),
        decreases src@.len() - i,
    {
        dst.push(src[i]);
        proof {
            assert(old(dst)@ + src@.take(i + 1) =~= (old(dst)@ + src@.take(i as int)).push(
                src@[i as int],
            ));
        }
        i = i + 1;
    }
    proof {
        assert(src@.take(src@.len() as int) =~= src@);
    }
}

/// A fresh vector with the same bytes as `src`.
pub fn copy_bytes(src: &Vec<u8>) -> (r: Vec<u8>)
    ensures
        r@ == src@,
{
    let mut r: Vec<u8> = Vec::new();
    extend_bytes(&mut r, src);
    proof {
        assert(Seq::<u8>::empty() + src@ =~= src@);
    }
    r
}

/// The reserved wire token a client sends to end its session: `/leave`.
pub open spec fn leave_token() -> Seq<u8> {
    seq![47u8, 108u8, 101u8, 97u8, 118u8, 101u8]
}

/// Does `line` consist of exactly the leave token?
pub fn is_leave_line(line: &Vec<u8>) -> (r: bool)
    ensures
        r == (line@ == leave_token()),
{
    if line.len() != 6 {
        return false;
    }
    let r = line[0] == 47 && line[1] == 108 && line[2] == 101 && line[3] == 97 && line[4] == 118
        && line[5] == 101;
    proof {
        if r {
            assert(line@ =~= leave_token());
        }
    }
    r
}

/// A username is acceptable when it is non-empty, contains no whitespace
/// byte, and is not the reserved leave token.
pub open spec fn valid_username(name: Seq<u8>) -> bool {
    &&& name.len() > 0
    &&& forall|i: int| 0 <= i < name.len() ==> !is_space(name[i])
    &&& name != leave_token()
}

/// Exec mirror of [`valid_username`].
pub fn validate_username(name: &Vec<u8>) -> (r: bool)
    ensures
        r == valid_username(name@),
{
    if name.len() == 0 {
        return false;
    }
    if is_leave_line(name) {
        return false;
    }
    let mut i: usize = 0;
    while i < name.len()
        invariant
            i <= name@.len(),
            forall|k: int| 0 <= k < i ==> !is_space(name@[k]),
        decreases name@.len() - i,
    {
        if is_space_byte(name[i]) {
            return false;
        }
        i = i + 1;
    }
    true
}

/// The broadcast frame for a message: `[<sender>]: <text>\n`.
pub open spec fn frame_spec(sender: Seq<u8>, text: Seq<u8>) -> Seq<u8> {
    seq![91u8] + sender + seq![93u8, 58u8, 32u8] + text + seq![10u8]
}

/// Build the broadcast frame `[<sender>]: <text>\n`.
pub fn format_frame(sender: &Vec<u8>, text: &Vec<u8>) -> (r: Vec<u8>)
    ensures
        r@ == frame_spec(sender@, text@),
{
    let mut r: Vec<u8> = Vec::new();
    r.push(91);
    extend_bytes(&mut r, sender);
    r.push(93);
    r.push(58);
    r.push(32);
    extend_bytes(&mut r, text);
    r.push(10);
    proof {
        assert(r@ =~= frame_spec(sender@, text@));
    }
    r
}

/// The handshake frame: the username followed by a newline.
pub open spec fn handshake_spec(name: Seq<u8>) -> Seq<u8> {
    name + seq![10u8]
}

/// Build the handshake frame `<name>\n`.
pub fn handshake_frame(name: &Vec<u8>) -> (r: Vec<u8>)
    ensures
        r@ == handshake_spec(name@),
{
    let mut r: Vec<u8> = Vec::new();
    extend_bytes(&mut r, name);
    r.push(10);
    proof {
        assert(r@ =~= handshake_spec(name@));
    }
    r
}

/// Append the trimmed bytes of `chunk` to the username candidate.
pub fn accumulate_candidate(candidate: &mut Vec<u8>, chunk: &Vec<u8>)
    ensures
        final(candidate)@ == old(candidate)@ + trim_spec(chunk@),
{
    let t = trim_bytes(chunk);
    extend_bytes(candidate, &t);
}

/// The administrative line sent when a candidate username is malformed:
/// `Invalid username\n`.
pub open spec fn invalid_username_notice() -> Seq<u8> {
    seq![
        73u8, 110u8, 118u8, 97u8, 108u8, 105u8, 100u8, 32u8, 117u8, 115u8, 101u8, 114u8, 110u8,
        97u8, 109u8, 101u8, 10u8,
    ]
}

/// Build the `Invalid username\n` line.
pub fn invalid_username_line() -> (r: Vec<u8>)
    ensures
        r@ == invalid_username_notice(),
{
    let mut r: Vec<u8> = Vec::new();
    r.push(73);
    r.push(110);
    r.push(118);
    r.push(97);
    r.push(108);
    r.push(105);
    r.push(100);
    r.push(32);
    r.push(117);
    r.push(115);
    r.push(101);
    r.push(114);
    r.push(110);
    r.push(97);
    r.push(109);
    r.push(101);
    r.push(10);
    proof {
        assert(r@ =~= invalid_username_notice());
    }
    r
}

/// The administrative line sent when a candidate username is already
/// registered: `Username is already taken\n`.
pub open spec fn name_taken_notice() -> Seq<u8> {
    seq![
        85u8, 115u8, 101u8, 114u8, 110u8, 97u8, 109u8, 101u8, 32u8, 105u8, 115u8, 32u8, 97u8,
        108u8, 114u8, 101u8, 97u8, 100u8, 121u8, 32u8, 116u8, 97u8, 107u8, 101u8, 110u8, 10u8,
    ]
}

/// Build the `Username is already taken\n` line.
pub fn name_taken_line() -> (r: Vec<u8>)
    ensures
        r@ == name_taken_notice(),
{
    let mut r: Vec<u8> = Vec::new();
    r.push(85);
    r.push(115);
    r.push(101);
    r.push(114);
    r.push(110);
    r.push(97);
    r.push(109);
    r.push(101);
    r.push(32);
    r.push(105);
    r.push(115);
    r.push(32);
    r.push(97);
    r.push(108);
    r.push(114);
    r.push(101);
    r.push(97);
    r.push(100);
    r.push(121);
    r.push(32);
    r.push(116);
    r.push(97);
    r.push(107);
    r.push(101);
    r.push(110);
    r.push(10);
    proof {
        assert(r@ =~= name_taken_notice());
    }
    r
}

} // verus!
