//! Framing of a streamed chat response. The body is a sequence of
//! server-sent-event lines; each line that starts with the `data: ` marker
//! carries one JSON payload. A body that is one JSON array instead is the
//! secondary format. Payloads stay bytes: decoding the JSON is the caller's.
use vstd::prelude::*;

verus! {

/// The bytes of the frame marker `data: `.
pub open spec fn marker() -> Seq<u8> {
    seq![100u8, 97u8, 116u8, 97u8, 58u8, 32u8]
}

/// What one line contributes: its payload when it starts with the marker
/// (without the marker and without a final carriage return), else nothing.
pub open spec fn frame_of(line: Seq<u8>) -> Seq<Seq<u8>> {
    if line.len() >= 6 && line.subrange(0, 6) == marker() {
        let p = line.subrange(6, line.len() as int);
        seq![
            if p.len() > 0 && p.last() == 13u8 {
                p.drop_last()
            } else {
                p
            },
        ]
    } else {
        Seq::empty()
    }
}

/// Reading `b` from the start: the payloads of the lines ended so far by a
/// newline, and the bytes of the line still open.
pub open spec fn scan(b: Seq<u8>) -> (Seq<Seq<u8>>, Seq<u8>)
    decreases b.len(),
{
    if b.len() == 0 {
        (Seq::empty(), Seq::empty())
    } else {
        let (done, open) = scan(b.drop_last());
        if b.last() == 10u8 {
            (done + frame_of(open), Seq::empty())
        } else {
            (done, open.push(b.last()))
        }
    }
}

/// The payloads of all frames of a body, in order; the last line counts
/// even without a final newline.
pub open spec fn payloads(b: Seq<u8>) -> Seq<Seq<u8>> {
    scan(b).0 + frame_of(scan(b).1)
}

fn frame(line: &Vec<u8>) -> (r: Option<Vec<u8>>)
    ensures
        frame_of(line@) == match r {
            Some(p) => seq![p@],
            None => Seq::<Seq<u8>>::empty(),
        },
{
    let n = line.len();
    if n < 6 || line[0] != 100 || line[1] != 97 || line[2] != 116 || line[3] != 97 || line[4] != 58
        || line[5] != 32 {
        proof {
            if n >= 6 {
                assert(line@.subrange(0, 6) != marker()) by {
                    let s = line@.subrange(0, 6);
                    assert(s[0] == line@[0] && s[1] == line@[1] && s[2] == line@[2]);
                    assert(s[3] == line@[3] && s[4] == line@[4] && s[5] == line@[5]);
                }
            }
        }
        return None;
    }
    assert(line@.subrange(0, 6) =~= marker());
    let end = if n > 6 && line[n - 1] == 13 {
        n - 1
    } else {
        n
    };
    let mut p: Vec<u8> = Vec::new();
    let mut i: usize = 6;
    while i < end
        invariant
            6 <= i <= end <= n,
            n == line@.len(),
            p@ == line@.subrange(6, i as int),
        decreases end - i,
    {
        p.push(line[i]);
        assert(p@ =~= line@.subrange(6, i + 1));
        i = i + 1;
    }
    proof {
        let q = line@.subrange(6, n as int);
        if n > 6 && line@[n - 1] == 13u8 {
            assert(p@ =~= q.drop_last());
        } else {
            assert(p@ =~= q);
        }
    }
    Some(p)
}

/// Splits a response body into its frame payloads.
pub fn sse_payloads(body: &[u8]) -> (r: Vec<Vec<u8>>)
    ensures
        r@.map_values(|p: Vec<u8>| p@) == payloads(body@),
{
    let mut done: Vec<Vec<u8>> = Vec::new();
    let mut open: Vec<u8> = Vec::new();
    let mut i: usize = 0;
    while i < body.len()
        invariant
            i <= body@.len(),
            done@.map_values(|p: Vec<u8>| p@) == scan(body@.subrange(0, i as int)).0,
            open@ == scan(body@.subrange(0, i as int)).1,
        decreases body@.len() - i,
    {
        let byte = body[i];
        let ghost prev = done@.map_values(|p: Vec<u8>| p@);
        proof {
            let s = body@.subrange(0, i + 1);
            assert(s.drop_last() =~= body@.subrange(0, i as int));
            assert(s.last() == byte);
        }
        if byte == 10 {
            match frame(&open) {
                Some(p) => {
                    done.push(p);
                },
                None => {},
            }
            open = Vec::new();
        } else {
            open.push(byte);
        }
        proof {
            assert(done@.map_values(|p: Vec<u8>| p@) =~= scan(body@.subrange(0, i + 1)).0);
        }
        i = i + 1;
    }
    assert(body@.subrange(0, body@.len() as int) =~= body@);
    match frame(&open) {
        Some(p) => {
            done.push(p);
        },
        None => {},
    }
    assert(done@.map_values(|p: Vec<u8>| p@) =~= payloads(body@));
    done
}

/// Whether a byte is ASCII white space as JSON allows it between tokens.
pub open spec fn is_json_space(b: u8) -> bool {
    b == 32u8 || b == 9u8 || b == 10u8 || b == 13u8
}

/// Whether the body is in the secondary format: its first byte that is not
/// white space opens a JSON array.
pub open spec fn is_array_body(b: Seq<u8>) -> bool {
    exists|i: int|
        0 <= i < b.len() && b[i] == 91u8 && forall|j: int| 0 <= j < i ==> is_json_space(b[j])
}

/// Tells the secondary, single-array format from a stream of frames.
pub fn is_json_array_body(body: &[u8]) -> (r: bool)
    ensures
        r == is_array_body(body@),
{
    let mut i: usize = 0;
    while i < body.len()
        invariant
            i <= body@.len(),
            forall|j: int| 0 <= j < i ==> is_json_space(body@[j]),
        decreases body@.len() - i,
    {
        let b = body[i];
        if b == 91 {
            return true;
        }
        if !(b == 32 || b == 9 || b == 10 || b == 13) {
            proof {
                assert forall|k: int|
                    0 <= k < body@.len() && body@[k] == 91u8 implies !(forall|j: int|
                    0 <= j < k ==> is_json_space(body@[j])) by {
                    if k > i {
                        assert(!is_json_space(body@[i as int]));
                    }
                }
            }
            return false;
        }
        i = i + 1;
    }
    false
}

} // verus!
