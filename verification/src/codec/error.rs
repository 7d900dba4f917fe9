//! Errors of the wire forms.

use vstd::prelude::*;

verus! {

/// Why a wire form could not be read or written.
#[derive(Clone, Debug, PartialEq, Eq)]
pub enum CodecError {
    /// The recursive-length-prefix layer refused, with its message.
    Rlp(String),
}

impl CodecError {
    /// The message of the error.
    pub open spec fn spec_message(&self) -> Seq<char> {
        match self {
            CodecError::Rlp(m) => m@,
        }
    }

    /// The error as text: `rlp: from string ` and then its message.
    pub fn to_string(&self) -> (r: String)
        ensures
            r@ == "rlp: from string "@ + self.spec_message(),
    {
        match self {
            CodecError::Rlp(m) => {
                let mut out: String = "rlp: from string ".to_owned();
                let ghost head = out@;
                let n: usize = m.as_str().unicode_len();
                let mut i: usize = 0;
                assert(out@ =~= head + m@.subrange(0, 0));
                while i < n
                    invariant
                        i <= n,
                        n == m@.len(),
                        out@ == head + m@.subrange(0, i as int),
                    decreases n - i,
                {
                    let c = m.as_str().get_char(i);
                    out.push(c);
                    assert(out@ =~= head + m@.subrange(0, i + 1));
                    i += 1;
                }
                assert(m@.subrange(0, m@.len() as int) =~= m@);
                out
            },
        }
    }
}

} // verus!
