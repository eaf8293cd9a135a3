use vstd::prelude::*;

verus! {

/// One byte of an account identifier: an ASCII lower-case letter, a digit,
/// or one of the separators `.`, `_`, `-`.
pub open spec fn is_id_byte(b: u8) -> bool {
    ||| 97 <= b <= 122  // 'a' ..= 'z'
    ||| 48 <= b <= 57  // '0' ..= '9'
    ||| b == 46  // '.'
    ||| b == 95  // '_'
    ||| b == 45  // '-'
}

/// A well-formed account identifier: between 2 and 64 bytes, all drawn from
/// the identifier alphabet. The alphabet contains no quote and no backslash,
/// so an identifier embeds into the payload encoding verbatim.
pub open spec fn id_wf(s: Seq<u8>) -> bool {
    &&& 2 <= s.len() <= 64
    &&& forall|i: int| 0 <= i < s.len() ==> is_id_byte(#[trigger] s[i])
}

/// The identity of an account: a caller, an owner, or a recipient,
/// held as the ASCII bytes of its name.
#[derive(Debug)]
pub struct Identity {
    bytes: Vec<u8>,
}

impl View for Identity {
    type V = Seq<u8>;

    closed spec fn view(&self) -> Seq<u8> {
        self.bytes@
    }
}

impl PartialEq for Identity {
    fn eq(&self, other: &Identity) -> (r: bool) {
        let r = self.bytes == other.bytes;
        proof {
            if r {
                assert(self.bytes@ =~= other.bytes@);
            } else {
                if self.bytes@ == other.bytes@ {
                    assert(self.bytes@.len() == other.bytes@.len());
                    assert(forall|i: int|
                        0 <= i < self.bytes@.len() ==> self.bytes@[i] == other.bytes@[i]);
                }
            }
        }
        r
    }
}

impl Eq for Identity {}

impl vstd::std_specs::cmp::PartialEqSpecImpl for Identity {
    open spec fn obeys_eq_spec() -> bool {
        true
    }

    open spec fn eq_spec(&self, other: &Identity) -> bool {
        self@ == other@
    }
}

impl Identity {
    /// Whether this identity is well formed.
    pub open spec fn wf(&self) -> bool {
        id_wf(self@)
    }

    /// Accepts exactly the byte strings that form a well-formed identifier.
    pub fn new(bytes: Vec<u8>) -> (r: Option<Identity>)
        ensures
            r matches Some(id) ==> id@ == bytes@ && id.wf(),
            r is None <==> !id_wf(bytes@),
    {
        if bytes.len() < 2 || bytes.len() > 64 {
            return None;
        }
        let mut i: usize = 0;
        while i < bytes.len()
            invariant
                i <= bytes.len(),
                forall|j: int| 0 <= j < i ==> is_id_byte(#[trigger] bytes@[j]),
            decreases bytes.len() - i,
        {
            let b = bytes[i];
            if !((97 <= b && b <= 122) || (48 <= b && b <= 57) || b == 46 || b == 95 || b == 45) {
                return None;
            }
            i += 1;
        }
        Some(Identity { bytes })
    }

    /// The raw bytes of the identifier.
    pub fn as_bytes(&self) -> (r: &Vec<u8>)
        ensures
            r@ == self@,
    {
        &self.bytes
    }

    /// A fresh identity with the same bytes.
    pub fn duplicate(&self) -> (r: Identity)
        ensures
            r@ == self@,
    {
        let bytes = self.bytes.clone();
        proof {
            assert(bytes@ =~= self.bytes@);
        }
        Identity { bytes }
    }
}

} // verus!
