//! Fixed-format identifiers for game sessions.
//!
//! A session identifier is exactly eight characters drawn from the
//! digits and the uppercase ASCII letters.  Every construction path
//! validates length and alphabet, so no identifier exists outside
//! these constraints.

use vstd::prelude::*;

use crate::strutil::push_char;

verus! {

use vstd::string::StrSliceExecFns;

/// True iff `c` may appear in a session identifier: a decimal digit
/// or an uppercase ASCII letter.
pub open spec fn is_sid_char(c: char) -> bool {
    (48 <= c as int && c as int <= 57) || (65 <= c as int && c as int <= 90)
}

/// True iff `s` is a well-formed session identifier: exactly eight
/// characters, each a digit or an uppercase ASCII letter.
pub open spec fn is_sid_seq(s: Seq<char>) -> bool {
    s.len() == 8 && (forall|i: int| 0 <= i < s.len() ==> is_sid_char(#[trigger] s[i]))
}

/// A validated session identifier, stored as its eight ASCII bytes.
#[derive(Debug, Hash)]
pub struct SessionID {
    code: Vec<u8>,
}

impl View for SessionID {
    type V = Seq<char>;

    closed spec fn view(&self) -> Seq<char> {
        self.code@.map(|_i: int, b: u8| b as char)
    }
}

impl SessionID {
    /// Internal invariant: the stored characters form a well-formed
    /// session identifier.
    pub closed spec fn wf(&self) -> bool {
        self.code@.len() == 8 && (forall|i: int|
            0 <= i < self.code@.len() ==> is_sid_char(#[trigger] self.code@[i] as char))
    }

    /// A well-formed identifier views as a well-formed eight-character
    /// sequence.
    pub broadcast proof fn wf_view(&self)
        requires
            #[trigger] self.wf(),
        ensures
            is_sid_seq(self@),
    {
    }

    /// Validates `s` and builds the identifier.  Succeeds exactly on
    /// eight-character strings over the digits and uppercase letters.
    pub fn new(s: &str) -> (r: Result<SessionID, &'static str>)
        ensures
            r is Ok <==> is_sid_seq(s@),
            r matches Ok(sid) ==> sid@ == s@ && sid.wf(),
            !vstd::utf8::is_ascii_chars(s@) ==> r == Err::<SessionID, &'static str>(
                "session-id must consist of digits and uppercase ascii letters",
            ),
            vstd::utf8::is_ascii_chars(s@) && s@.len() != 8 ==> r == Err::<
                SessionID,
                &'static str,
            >("Invalid id-length"),
            vstd::utf8::is_ascii_chars(s@) && s@.len() == 8 && !is_sid_seq(s@) ==> r == Err::<
                SessionID,
                &'static str,
            >("session-id must consist of digits and uppercase ascii letters"),
    {
        broadcast use vstd::utf8::is_ascii_chars_encode_utf8;

        if !s.is_ascii() {
            proof {
                let i = choose|i: int|
                    0 <= i < s@.len() && !('\0' <= s@[i] && s@[i] <= '\u{7f}');
                if is_sid_seq(s@) {
                    assert(is_sid_char(s@[i]));
                }
            }
            return Err("session-id must consist of digits and uppercase ascii letters");
        }
        if s.unicode_len() != 8 {
            return Err("Invalid id-length");
        }
        let mut code: Vec<u8> = Vec::new();
        for i in 0..8usize
            invariant
                s.is_ascii(),
                s@.len() == 8,
                code@.len() == i,
                forall|j: int| 0 <= j < i ==> code@[j] == s@[j] as u8,
                forall|j: int| 0 <= j < i ==> is_sid_char(#[trigger] s@[j]),
        {
            let b = s.get_ascii(i);
            if !((48 <= b && b <= 57) || (65 <= b && b <= 90)) {
                return Err("session-id must consist of digits and uppercase ascii letters");
            }
            code.push(b);
        }
        let sid = SessionID { code };
        proof {
            assert(sid@ =~= s@);
        }
        Ok(sid)
    }

    /// The identifier's characters as an owned string.
    pub fn as_str(&self) -> (r: String)
        ensures
            r@ == self@,
    {
        let mut out = String::new();
        let mut i: usize = 0;
        while i < self.code.len()
            invariant
                i <= self.code@.len(),
                out@ == self@.take(i as int),
            decreases self.code@.len() - i,
        {
            let b = self.code[i];
            push_char(&mut out, b as char);
            i = i + 1;
            proof {
                assert(out@ =~= self@.take(i as int));
            }
        }
        proof {
            assert(out@ =~= self@);
        }
        out
    }
}

impl PartialEq for SessionID {
    fn eq(&self, other: &SessionID) -> (r: bool) {
        if self.code.len() != other.code.len() {
            proof {
                assert(self@.len() != other@.len());
            }
            return false;
        }
        let mut i: usize = 0;
        while i < self.code.len()
            invariant
                self.code@.len() == other.code@.len(),
                i <= self.code@.len(),
                forall|j: int| 0 <= j < i ==> self.code@[j] == other.code@[j],
            decreases self.code@.len() - i,
        {
            if self.code[i] != other.code[i] {
                proof {
                    assert(self@[i as int] != other@[i as int]);
                }
                return false;
            }
            i = i + 1;
        }
        proof {
            assert(self.code@ =~= other.code@);
            assert(self@ =~= other@);
        }
        true
    }
}

impl Eq for SessionID {}

impl vstd::std_specs::cmp::PartialEqSpecImpl for SessionID {
    open spec fn obeys_eq_spec() -> bool {
        true
    }

    open spec fn eq_spec(&self, other: &SessionID) -> bool {
        self@ == other@
    }
}

impl Clone for SessionID {
    fn clone(&self) -> (r: SessionID)
        ensures
            r@ == self@,
            r.wf() == self.wf(),
    {
        let mut code: Vec<u8> = Vec::new();
        let mut i: usize = 0;
        while i < self.code.len()
            invariant
                i <= self.code@.len(),
                code@ == self.code@.take(i as int),
            decreases self.code@.len() - i,
        {
            code.push(self.code[i]);
            i = i + 1;
            proof {
                assert(code@ =~= self.code@.take(i as int));
            }
        }
        proof {
            assert(code@ =~= self.code@);
        }
        SessionID { code }
    }
}

} // verus!
