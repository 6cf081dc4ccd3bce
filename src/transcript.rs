//! How the engine's transcript segments are surfaced: each one as
//! `[start - end (marker)]: text`, the segments run together in order.

use vstd::prelude::*;
use vstd::string::StringExecFns;

verus! {

/// One segment returned by the transcription engine.
pub struct TranscriptSegment {
    /// The transcribed text.
    pub text: String,
    /// Start timestamp, as the engine reports it.
    pub start: i64,
    /// End timestamp, as the engine reports it.
    pub end: i64,
    /// Alignment marker of the first token, or -1 where there is none.
    pub marker: i64,
}

/// The alignment marker of a segment: that of its first token when the
/// token count is known and positive and the first token's data was read,
/// -1 otherwise.
pub open spec fn marker_of(token_count: Option<i32>, first_token_marker: Option<i64>) -> i64 {
    match token_count {
        Some(n) => if n > 0 {
            match first_token_marker {
                Some(m) => m,
                None => -1i64,
            }
        } else {
            -1i64
        },
        None => -1i64,
    }
}

/// Computes `marker_of`.
pub fn alignment_marker(token_count: Option<i32>, first_token_marker: Option<i64>) -> (r: i64)
    ensures
        r == marker_of(token_count, first_token_marker),
{
    match token_count {
        Some(n) => if n > 0 {
            match first_token_marker {
                Some(m) => m,
                None => -1,
            }
        } else {
            -1
        },
        None => -1,
    }
}

/// The decimal digit `d`.
pub open spec fn digit(d: nat) -> char {
    seq!['0', '1', '2', '3', '4', '5', '6', '7', '8', '9'][d as int]
}

/// The decimal text of `n`, without leading zeros.
pub open spec fn digits(n: nat) -> Seq<char>
    decreases n,
{
    if n < 10 {
        seq![digit(n)]
    } else {
        digits(n / 10).push(digit(n % 10))
    }
}

/// The decimal text of `v`, with a leading `-` when negative.
pub open spec fn signed_text(v: int) -> Seq<char> {
    if v < 0 {
        seq!['-'] + digits((-v) as nat)
    } else {
        digits(v as nat)
    }
}

/// The text a segment is surfaced as.
pub open spec fn segment_text(start: int, end: int, marker: int, text: Seq<char>) -> Seq<char> {
    seq!['['] + signed_text(start) + seq![' ', '-', ' '] + signed_text(end) + seq![' ', '(']
        + signed_text(marker) + seq![')', ']', ':', ' '] + text
}

/// The text a whole transcript is surfaced as.
pub open spec fn transcript_text(segs: Seq<TranscriptSegment>) -> Seq<char>
    decreases segs.len(),
{
    if segs.len() == 0 {
        Seq::empty()
    } else {
        let s = segs.last();
        transcript_text(segs.drop_last()) + segment_text(
            s.start as int,
            s.end as int,
            s.marker as int,
            s.text@,
        )
    }
}

fn digit_char(d: u64) -> (c: char)
    requires
        d < 10,
    ensures
        c == digit(d as nat),
{
    if d == 0 {
        '0'
    } else if d == 1 {
        '1'
    } else if d == 2 {
        '2'
    } else if d == 3 {
        '3'
    } else if d == 4 {
        '4'
    } else if d == 5 {
        '5'
    } else if d == 6 {
        '6'
    } else if d == 7 {
        '7'
    } else if d == 8 {
        '8'
    } else {
        '9'
    }
}

fn push_digits(out: &mut Vec<char>, n: u64)
    ensures
        final(out)@ == old(out)@ + digits(n as nat),
    decreases n,
{
    if n >= 10 {
        push_digits(out, n / 10);
    }
    let c = digit_char(n % 10);
    out.push(c);
    proof {
        if n >= 10 {
            assert(final(out)@ =~= old(out)@ + digits(n as nat));
        } else {
            assert(final(out)@ =~= old(out)@ + digits(n as nat));
        }
    }
}

fn push_signed(out: &mut Vec<char>, v: i64)
    ensures
        final(out)@ == old(out)@ + signed_text(v as int),
{
    if v < 0 {
        out.push('-');
        let m: u64 = (0 - (v as i128)) as u64;
        push_digits(out, m);
        assert(final(out)@ =~= old(out)@ + signed_text(v as int));
    } else {
        push_digits(out, v as u64);
    }
}

fn push_all(out: &mut Vec<char>, s: &[char])
    ensures
        final(out)@ == old(out)@ + s@,
{
    let mut i: usize = 0;
    while i < s.len()
        invariant
            i <= s@.len(),
            out@ == old(out)@ + s@.take(i as int),
        decreases s@.len() - i,
    {
        out.push(s[i]);
        i = i + 1;
        assert(out@ =~= old(out)@ + s@.take(i as int));
    }
    assert(s@.take(i as int) =~= s@);
}

/// Relies on `String::from_iter` over chars: the string of exactly those
/// characters, in order.
#[verifier::external_body]
fn string_of_chars(cs: &Vec<char>) -> (r: String)
    ensures
        r@ == cs@,
{
    String::from_iter(cs.iter())
}

impl TranscriptSegment {
    /// The segment as `[start - end (marker)]: text`.
    pub fn render(&self) -> (r: String)
        ensures
            r@ == segment_text(self.start as int, self.end as int, self.marker as int, self.text@),
    {
        let mut cs: Vec<char> = Vec::new();
        cs.push('[');
        push_signed(&mut cs, self.start);
        push_all(&mut cs, &[' ', '-', ' ']);
        push_signed(&mut cs, self.end);
        push_all(&mut cs, &[' ', '(']);
        push_signed(&mut cs, self.marker);
        push_all(&mut cs, &[')', ']', ':', ' ']);
        let mut r = string_of_chars(&cs);
        r.append(self.text.as_str());
        assert(r@ =~= segment_text(self.start as int, self.end as int, self.marker as int, self.text@));
        r
    }
}

/// The whole transcript: every segment rendered, in order, run together.
pub fn render_transcript(segs: &Vec<TranscriptSegment>) -> (r: String)
    ensures
        r@ == transcript_text(segs@),
{
    let mut r = String::new();
    let mut i: usize = 0;
    while i < segs.len()
        invariant
            i <= segs@.len(),
            r@ == transcript_text(segs@.take(i as int)),
        decreases segs@.len() - i,
    {
        let piece = segs[i].render();
        proof {
            let t = segs@.take(i as int + 1);
            assert(t.drop_last() =~= segs@.take(i as int));
        }
        r.append(piece.as_str());
        i = i + 1;
    }
    assert(segs@.take(i as int) =~= segs@);
    r
}

} // verus!
