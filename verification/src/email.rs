use vstd::prelude::*;
use vstd::string::StringSliceAdditionalSpecFns;

verus! {

/// The characters that may appear in neither side of an address.
pub open spec fn prohibited_byte(b: u8) -> bool {
    ||| b == ' ' as u8
    ||| b == ',' as u8
    ||| b == ';' as u8
    ||| b == '<' as u8
    ||| b == '>' as u8
    ||| b == '[' as u8
    ||| b == ']' as u8
    ||| b == '"' as u8
}

/// Whether position `i` splits `bytes` as a well-formed address: the single
/// `@`, at most 64 and at least 1 byte of local part before it, a dot
/// somewhere in the domain after it, and no prohibited character anywhere.
/// (All tested characters are ASCII, so the byte view decides exactly what
/// the character view would.)
pub open spec fn at_split_ok(bytes: Seq<u8>, i: int) -> bool {
    &&& 0 <= i < bytes.len()
    &&& bytes[i] == '@' as u8
    &&& forall|j: int| 0 <= j < bytes.len() && j != i ==> bytes[j] != '@' as u8
    &&& 1 <= i <= 64
    &&& exists|k: int| i < k < bytes.len() && bytes[k] == '.' as u8
    &&& forall|j: int| 0 <= j < bytes.len() && j != i ==> !prohibited_byte(bytes[j])
}

/// A well-formed address has exactly one such split point.
pub open spec fn email_ok(bytes: Seq<u8>) -> bool {
    exists|i: int| at_split_ok(bytes, i)
}

/// A string that holds a valid e-mail address, or nothing: `new` keeps the
/// given text exactly when it is well-formed.
#[derive(Debug)]
pub struct EmailString(pub Option<String>);

impl EmailString {
    pub fn new(email: &str) -> (r: EmailString)
        ensures
            email_ok(email.spec_bytes()) ==> (r.0 matches Some(e) && e@ == email@),
            !email_ok(email.spec_bytes()) ==> r.0 is None,
    {
        let bytes = email.as_bytes();
        let n = bytes.len();

        // Find the single `@`, if there is one.
        let mut at_pos: usize = 0;
        let mut at_count: usize = 0;
        let ghost mut second_at: int = 0;
        let mut i: usize = 0;
        while i < n
            invariant
                n == bytes@.len(),
                bytes@ == email.spec_bytes(),
                0 <= i <= n,
                at_count <= i,
                at_count == 0 ==> forall|j: int| 0 <= j < i ==> bytes@[j] != '@' as u8,
                at_count >= 1 ==> at_pos < i && bytes@[at_pos as int] == '@' as u8,
                at_count == 1 ==> forall|j: int|
                    0 <= j < i && j != at_pos ==> bytes@[j] != '@' as u8,
                at_count >= 2 ==> at_pos < second_at < i && bytes@[second_at] == '@' as u8,
            decreases n - i,
        {
            if bytes[i] == '@' as u8 {
                if at_count == 0 {
                    at_pos = i;
                } else if at_count == 1 {
                    proof {
                        second_at = i as int;
                    }
                }
                at_count = at_count + 1;
            }
            i = i + 1;
        }
        if at_count != 1 {
            proof {
                assert forall|w: int| !at_split_ok(email.spec_bytes(), w) by {
                    if at_count == 0 {
                    } else {
                        if w == at_pos {
                            assert(bytes@[second_at] == '@' as u8);
                        } else {
                            assert(bytes@[at_pos as int] == '@' as u8);
                        }
                    }
                }
            }
            return EmailString(None);
        }
        let at = at_pos;
        if at < 1 || at > 64 {
            proof {
                assert forall|w: int| !at_split_ok(email.spec_bytes(), w) by {
                    if w != at {
                        assert(0 <= w < n ==> bytes@[w] != '@' as u8);
                    }
                }
            }
            return EmailString(None);
        }
        // The domain must contain a dot.
        let mut has_dot = false;
        let mut k: usize = at + 1;
        while k < n
            invariant
                n == bytes@.len(),
                bytes@ == email.spec_bytes(),
                at < k <= n,
                has_dot ==> exists|d: int| at < d < n && bytes@[d] == '.' as u8,
                !has_dot ==> forall|d: int| at < d < k ==> bytes@[d] != '.' as u8,
            decreases n - k,
        {
            if bytes[k] == '.' as u8 {
                has_dot = true;
            }
            k = k + 1;
        }
        if !has_dot {
            proof {
                assert forall|w: int| !at_split_ok(email.spec_bytes(), w) by {
                    if w != at {
                        assert(0 <= w < n ==> bytes@[w] != '@' as u8);
                    }
                }
            }
            return EmailString(None);
        }
        // No prohibited character on either side; the `@` itself is not a
        // prohibited character, so every position can be held to the rule.
        let mut j: usize = 0;
        while j < n
            invariant
                n == bytes@.len(),
                bytes@ == email.spec_bytes(),
                0 <= j <= n,
                1 <= at <= 64 && at < n,
                bytes@[at as int] == '@' as u8,
                forall|p: int| 0 <= p < n && p != at ==> bytes@[p] != '@' as u8,
                forall|p: int| 0 <= p < j ==> !prohibited_byte(bytes@[p]),
            decreases n - j,
        {
            let b = bytes[j];
            if b == ' ' as u8 || b == ',' as u8 || b == ';' as u8 || b == '<' as u8 || b
                == '>' as u8 || b == '[' as u8 || b == ']' as u8 || b == '"' as u8 {
                proof {
                    assert forall|w: int| !at_split_ok(email.spec_bytes(), w) by {
                        if w != at {
                            assert(0 <= w < n ==> bytes@[w] != '@' as u8);
                        } else {
                            assert(prohibited_byte(bytes@[j as int]) && j != at);
                        }
                    }
                }
                return EmailString(None);
            }
            j = j + 1;
        }
        proof {
            assert(at_split_ok(email.spec_bytes(), at as int));
        }
        EmailString(Some(email.to_owned()))
    }
}

impl core::str::FromStr for EmailString {
    type Err = &'static str;

    fn from_str(s: &str) -> Result<EmailString, Self::Err> {
        Ok(EmailString::new(s))
    }
}

} // verus!
