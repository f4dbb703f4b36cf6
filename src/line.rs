//! A single line of terminal output: text that ends with its only line feed.
use vstd::prelude::*;
use crate::text::{bytes_of, LF};

verus! {

/// Why text is not a single line.
#[derive(PartialEq, Eq, Structural, Clone, Copy, Debug)]
pub enum PtyLineError {
    /// The last character is not a line feed.
    NoTrailingLf,
    /// A line feed stands before the last character.
    LfBeforeEnd,
}

/// Text whose only line feed is its last character.
pub struct PtyLine(pub String);

/// Whether a line feed stands before the last byte of `b`.
pub open spec fn lf_before_end(b: Seq<u8>) -> bool {
    exists|i: int| 0 <= i < b.len() - 1 && b[i] == LF
}

/// How `b` reads as a line: it is checked from its start, so an early line
/// feed is reported before a missing final one. Empty text passes.
pub open spec fn line_check(b: Seq<u8>) -> Result<(), PtyLineError> {
    if lf_before_end(b) {
        Err(PtyLineError::LfBeforeEnd)
    } else if b.len() > 0 && b.last() != LF {
        Err(PtyLineError::NoTrailingLf)
    } else {
        Ok(())
    }
}

impl PtyLine {
    /// Accepts `s` as a line, or says why it is not one.
    pub fn from_str(s: &str) -> (r: Result<PtyLine, PtyLineError>)
        ensures
            match line_check(bytes_of(s@)) {
                Ok(()) => r matches Ok(l) && l.0@ == s@,
                Err(e) => r == Err::<PtyLine, PtyLineError>(e),
            },
    {
        let b = s.as_bytes();
        let n = b.len();
        let mut i: usize = 0;
        while i < n
            invariant
                b@ == bytes_of(s@),
                n == b@.len(),
                i <= n,
                forall|j: int| 0 <= j < i && j < n - 1 ==> b@[j] != LF,
                i == n && n > 0 ==> b@[n - 1] == LF,
            decreases n - i,
        {
            if i + 1 == n {
                if b[i] != LF {
                    return Err(PtyLineError::NoTrailingLf);
                }
            } else if b[i] == LF {
                return Err(PtyLineError::LfBeforeEnd);
            }
            i = i + 1;
        }
        assert(!lf_before_end(b@));
        Ok(PtyLine(s.to_owned()))
    }
}

} // verus!
