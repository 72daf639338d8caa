//! The HTTP front's decisions: reading the post-receive body, and what
//! each failure answers.
//!
//! The body of a post-receive notification is whitespace-separated
//! tokens `<remote> <commit> <ref-name>`; extra tokens are ignored and
//! runs of spaces collapse. Framing faults answer 400, everything the
//! pipeline reports answers 500. The socket work lives in the binary.

use vstd::prelude::*;
use vstd::string::*;

use crate::strutil::{all_digits, parse_digits, parse_u64, split_on, split_spec};

verus! {

/// Why a request got no 200.
#[derive(Debug)]
pub enum ResponseError {
    /// The body is not UTF-8; the words describing the fault.
    InvalidBodyFormat(String),
    /// A required token is missing; which one.
    MissingBodyArgs(String),
    /// The pipeline failed.
    RunFailed(crate::runner::Error),
}

/// The non-empty tokens of a body, split on spaces.
pub open spec fn body_tokens(s: Seq<char>) -> Seq<Seq<char>> {
    split_spec(s, ' ').filter(|t: Seq<char>| t.len() > 0)
}

/// The token the body lacks when it holds only `n`.
pub open spec fn missing_token_name(n: int) -> Seq<char> {
    if n == 0 {
        "remote repository"@
    } else if n == 1 {
        "reference parameter"@
    } else {
        "reference name parameter"@
    }
}

/// The three tokens of a post-receive body: remote, commit and ref
/// name, with empty tokens ignored and anything further dropped; or
/// which token is missing.
pub fn parse_postreceive_body(body: &str) -> (r: Result<(String, String, String), ResponseError>)
    ensures
        match r {
            Ok((remote, commit, refname)) => {
                &&& body_tokens(body@).len() >= 3
                &&& remote@ == body_tokens(body@)[0]
                &&& commit@ == body_tokens(body@)[1]
                &&& refname@ == body_tokens(body@)[2]
            },
            Err(e) => {
                &&& body_tokens(body@).len() < 3
                &&& e matches ResponseError::MissingBodyArgs(which)
                &&& which@ == missing_token_name(body_tokens(body@).len() as int)
            },
        },
{
    let pieces = split_on(body, ' ');
    let ghost gpieces = split_spec(body@, ' ');
    let ghost pred = |t: Seq<char>| t.len() > 0;
    let mut toks: Vec<String> = Vec::new();
    let mut i: usize = 0;
    proof {
        assert(gpieces.subrange(0, 0) =~= Seq::<Seq<char>>::empty());
        assert(Seq::<Seq<char>>::empty().filter(pred) =~= Seq::<Seq<char>>::empty());
        assert(toks.deep_view() =~= Seq::<Seq<char>>::empty());
    }
    while i < pieces.len()
        invariant
            gpieces == split_spec(body@, ' '),
            pred == (|t: Seq<char>| t.len() > 0),
            pieces.deep_view() == gpieces,
            pieces@.len() == gpieces.len(),
            0 <= i <= pieces@.len(),
            toks.deep_view() =~= gpieces.subrange(0, i as int).filter(pred),
        decreases pieces@.len() - i,
    {
        proof {
            assert(pieces.deep_view()[i as int] == pieces@[i as int]@);
            let sub1 = gpieces.subrange(0, i + 1);
            assert(sub1.drop_last() =~= gpieces.subrange(0, i as int));
            assert(sub1.last() == gpieces[i as int]);
            reveal_with_fuel(Seq::filter, 2);
        }
        if !pieces[i].as_str().is_empty() {
            let ghost old_toks = toks.deep_view();
            toks.push(pieces[i].clone());
            proof {
                assert(toks.deep_view() =~= old_toks.push(pieces@[i as int]@));
            }
        }
        i = i + 1;
    }
    proof {
        assert(gpieces.subrange(0, gpieces.len() as int) =~= gpieces);
        assert(toks.deep_view() =~= body_tokens(body@));
    }
    if toks.len() >= 3 {
        proof {
            assert(toks.deep_view()[0] == toks@[0]@);
            assert(toks.deep_view()[1] == toks@[1]@);
            assert(toks.deep_view()[2] == toks@[2]@);
        }
        Ok((toks[0].clone(), toks[1].clone(), toks[2].clone()))
    } else if toks.len() == 0 {
        Err(ResponseError::MissingBodyArgs("remote repository".to_owned()))
    } else if toks.len() == 1 {
        Err(ResponseError::MissingBodyArgs("reference parameter".to_owned()))
    } else {
        Err(ResponseError::MissingBodyArgs("reference name parameter".to_owned()))
    }
}

impl ResponseError {
    /// The words the answer carries.
    pub open spec fn message_spec(&self) -> Seq<char> {
        match self {
            ResponseError::InvalidBodyFormat(m) => "invalid body format: "@ + m@,
            ResponseError::MissingBodyArgs(w) => "missing body args: "@ + w@,
            ResponseError::RunFailed(e) => "run failed: "@ + e.message_spec(),
        }
    }

    pub fn message(&self) -> (r: String)
        ensures
            r@ == self.message_spec(),
    {
        let mut s = String::new();
        match self {
            ResponseError::InvalidBodyFormat(m) => {
                s.append("invalid body format: ");
                s.append(m.as_str());
            },
            ResponseError::MissingBodyArgs(w) => {
                s.append("missing body args: ");
                s.append(w.as_str());
            },
            ResponseError::RunFailed(e) => {
                s.append("run failed: ");
                s.append(e.message().as_str());
            },
        }
        proof {
            assert(s@ =~= self.message_spec());
        }
        s
    }

    /// The HTTP status the error answers with: framing faults are the
    /// caller's, everything else is the server's.
    pub open spec fn status_spec(&self) -> u16 {
        match self {
            ResponseError::InvalidBodyFormat(_) => 400,
            ResponseError::MissingBodyArgs(_) => 400,
            ResponseError::RunFailed(_) => 500,
        }
    }

    pub fn status_code(&self) -> (r: u16)
        ensures
            r == self.status_spec(),
    {
        match self {
            ResponseError::InvalidBodyFormat(_) => 400,
            ResponseError::MissingBodyArgs(_) => 400,
            ResponseError::RunFailed(_) => 500,
        }
    }
}

/// The four dotted-decimal parts of an IPv4 address, each a number up
/// to 255; anything else is refused.
pub fn str_to_ip(addr: &str) -> (r: Option<(u8, u8, u8, u8)>)
    ensures
        match r {
            Some((a, b, c, d)) => {
                let parts = split_spec(addr@, '.');
                &&& parts.len() == 4
                &&& octet_of(parts[0]) == Some(a)
                &&& octet_of(parts[1]) == Some(b)
                &&& octet_of(parts[2]) == Some(c)
                &&& octet_of(parts[3]) == Some(d)
            },
            None => {
                let parts = split_spec(addr@, '.');
                ||| parts.len() != 4
                ||| exists|k: int| 0 <= k < 4 && octet_of(#[trigger] parts[k]) is None
            },
        },
{
    let parts = split_on(addr, '.');
    if parts.len() != 4 {
        return None;
    }
    proof {
        assert(parts.deep_view()[0] == parts@[0]@);
        assert(parts.deep_view()[1] == parts@[1]@);
        assert(parts.deep_view()[2] == parts@[2]@);
        assert(parts.deep_view()[3] == parts@[3]@);
    }
    let a = match parse_octet(parts[0].as_str()) {
        Some(v) => v,
        None => {
            return None;
        },
    };
    let b = match parse_octet(parts[1].as_str()) {
        Some(v) => v,
        None => {
            return None;
        },
    };
    let c = match parse_octet(parts[2].as_str()) {
        Some(v) => v,
        None => {
            return None;
        },
    };
    let d = match parse_octet(parts[3].as_str()) {
        Some(v) => v,
        None => {
            return None;
        },
    };
    Some((a, b, c, d))
}

/// The number a dotted part stands for, when it is digits making at
/// most 255.
pub open spec fn octet_of(s: Seq<char>) -> Option<u8> {
    if s.len() > 0 && all_digits(s) && parse_digits(s) <= 255 {
        Some(parse_digits(s) as u8)
    } else {
        None
    }
}

fn parse_octet(s: &str) -> (r: Option<u8>)
    ensures
        r == octet_of(s@),
{
    match parse_u64(s) {
        Some(v) => {
            if v <= 255 {
                Some(v as u8)
            } else {
                None
            }
        },
        None => None,
    }
}

} // verus!
