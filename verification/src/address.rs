//! 20-byte account addresses and the fixed-size byte strings of the contracts.
use vstd::prelude::*;
use vstd::std_specs::cmp::PartialEqSpecImpl;

verus! {

/// A 20-byte account address.
#[derive(Clone, Copy, Debug)]
pub struct Address {
    /// The address bytes, in the order they are written.
    pub bytes: [u8; 20],
}

/// A 32-byte hash (`bytes32`).
pub type Hash32 = [u8; 32];

/// A 4-byte interface identifier (`bytes4`).
pub type InterfaceId = [u8; 4];

/// The zero address.
pub open spec fn zero_address() -> Address {
    Address { bytes: vstd::array::spec_array_fill_for_copy_type::<u8, 20>(0u8) }
}

/// An address is zero exactly when it is the zero address.
pub proof fn lemma_zero_address(a: Address)
    ensures
        a.spec_is_zero() <==> a == zero_address(),
{
    let z = zero_address();
    assert(forall|i: int| 0 <= i < 20 ==> z.bytes@[i] == 0u8);
    if a.spec_is_zero() {
        assert(a.bytes =~= z.bytes);
    }
}

impl Address {
    /// Whether this is the zero address.
    pub open spec fn spec_is_zero(self) -> bool {
        forall|i: int| 0 <= i < 20 ==> #[trigger] self.bytes@[i] == 0
    }

    /// The address with the given bytes.
    pub fn new(bytes: [u8; 20]) -> (r: Address)
        ensures
            r.bytes == bytes,
    {
        Address { bytes }
    }

    /// The zero address.
    pub fn zero() -> (r: Address)
        ensures
            r.spec_is_zero(),
            r == zero_address(),
    {
        let r = Address { bytes: [0u8; 20] };
        proof {
            lemma_zero_address(r);
        }
        r
    }

    /// Whether this is the zero address.
    pub fn is_zero(&self) -> (r: bool)
        ensures
            r == self.spec_is_zero(),
    {
        let mut i: usize = 0;
        while i < 20
            invariant
                0 <= i <= 20,
                forall|j: int| 0 <= j < i ==> self.bytes@[j] == 0,
            decreases 20 - i,
        {
            if self.bytes[i] != 0 {
                return false;
            }
            i = i + 1;
        }
        true
    }

    /// Whether two addresses are equal.
    pub fn same(&self, other: &Address) -> (r: bool)
        ensures
            r == (*self == *other),
    {
        let mut i: usize = 0;
        while i < 20
            invariant
                0 <= i <= 20,
                forall|j: int| 0 <= j < i ==> self.bytes@[j] == other.bytes@[j],
            decreases 20 - i,
        {
            if self.bytes[i] != other.bytes[i] {
                return false;
            }
            i = i + 1;
        }
        proof {
            assert(self.bytes =~= other.bytes);
        }
        true
    }
}

impl PartialEq for Address {
    fn eq(&self, other: &Self) -> (r: bool) {
        self.same(other)
    }
}

impl PartialEqSpecImpl for Address {
    open spec fn obeys_eq_spec() -> bool {
        true
    }

    open spec fn eq_spec(&self, other: &Self) -> bool {
        *self == *other
    }
}

impl Eq for Address {
}

/// Whether two interface identifiers are equal.
pub fn same_interface_id(a: &InterfaceId, b: &InterfaceId) -> (r: bool)
    ensures
        r == (*a == *b),
{
    let r = a[0] == b[0] && a[1] == b[1] && a[2] == b[2] && a[3] == b[3];
    proof {
        if r {
            assert(*a =~= *b);
        }
    }
    r
}

} // verus!
