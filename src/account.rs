//! Field elements, digests and the account header.

use vstd::prelude::*;

verus! {

/// The modulus of the 64-bit prime field: 2^64 - 2^32 + 1.
pub const FIELD_MODULUS: u64 = 0xFFFF_FFFF_0000_0001;

/// An element of the prime field, always held in canonical form.
#[derive(Clone, Copy, Debug, PartialEq, Eq, Structural)]
pub struct Felt {
    value: u64,
}

impl View for Felt {
    type V = u64;

    closed spec fn view(&self) -> u64 {
        self.value
    }
}

impl Felt {
    #[verifier::type_invariant]
    spec fn canonical(&self) -> bool {
        self.value < FIELD_MODULUS
    }

    /// The element `value mod FIELD_MODULUS`.
    pub fn new(value: u64) -> (r: Felt)
        ensures
            r@ == value % FIELD_MODULUS,
    {
        Felt { value: value % FIELD_MODULUS }
    }

    /// The zero element.
    pub fn zero() -> (r: Felt)
        ensures
            r@ == 0,
    {
        Felt { value: 0 }
    }

    /// The element whose canonical value is `value`, if `value` is canonical.
    pub fn from_canonical(value: u64) -> (r: Option<Felt>)
        ensures
            value < FIELD_MODULUS <==> r.is_some(),
            r.is_some() ==> r.unwrap()@ == value,
    {
        if value < FIELD_MODULUS {
            Some(Felt { value })
        } else {
            None
        }
    }

    /// The canonical integer value of this element.
    pub fn as_int(&self) -> (r: u64)
        ensures
            r == self@,
            r < FIELD_MODULUS,
    {
        proof {
            use_type_invariant(self);
        }
        self.value
    }
}

/// A hash digest: four field elements.
#[derive(Clone, Copy, Debug)]
pub struct Digest {
    elements: [Felt; 4],
}

/// The canonical values of a sequence of field elements.
pub open spec fn felt_values(s: Seq<Felt>) -> Seq<u64> {
    s.map_values(|f: Felt| f@)
}

impl View for Digest {
    type V = Seq<u64>;

    closed spec fn view(&self) -> Seq<u64> {
        felt_values(self.elements@)
    }
}

impl Digest {
    /// The digest made of the given elements.
    pub fn new(elements: [Felt; 4]) -> (r: Digest)
        ensures
            r@ == felt_values(elements@),
    {
        Digest { elements }
    }

    /// The digest whose elements have the given canonical values, if all four are canonical.
    pub fn from_ints(values: [u64; 4]) -> (r: Option<Digest>)
        ensures
            r.is_some() <==> (forall|i: int| 0 <= i < 4 ==> values@[i] < FIELD_MODULUS),
            r.is_some() ==> r.unwrap()@ == values@,
    {
        let mut elements: [Felt; 4] = [Felt::zero(); 4];
        let mut i: usize = 0;
        while i < 4
            invariant
                0 <= i <= 4,
                elements@.len() == 4,
                forall|j: int| 0 <= j < i ==> values@[j] < FIELD_MODULUS,
                forall|j: int| 0 <= j < i ==> elements@[j]@ == values@[j],
            decreases 4 - i,
        {
            match Felt::from_canonical(values[i]) {
                Some(f) => {
                    elements[i] = f;
                },
                None => {
                    return None;
                },
            }
            i = i + 1;
        }
        let r = Digest { elements };
        assert(r@ =~= values@);
        Some(r)
    }

    /// The four elements of this digest.
    pub fn as_elements(&self) -> (r: [Felt; 4])
        ensures
            felt_values(r@) == self@,
    {
        self.elements
    }

    /// The canonical values of the four elements of this digest.
    pub fn as_ints(&self) -> (r: [u64; 4])
        ensures
            r@ == self@,
    {
        let mut out: [u64; 4] = [0u64; 4];
        let mut i: usize = 0;
        while i < 4
            invariant
                0 <= i <= 4,
                out@.len() == 4,
                self.elements@.len() == 4,
                forall|j: int| 0 <= j < i ==> out@[j] == self.elements@[j]@,
            decreases 4 - i,
        {
            out[i] = self.elements[i].as_int();
            i = i + 1;
        }
        assert(out@ =~= self@);
        out
    }
}

impl PartialEq for Digest {
    fn eq(&self, o: &Digest) -> (r: bool) {
        let a = self.as_ints();
        let b = o.as_ints();
        let r = a[0] == b[0] && a[1] == b[1] && a[2] == b[2] && a[3] == b[3];
        assert(r ==> a@ =~= b@);
        r
    }
}

impl vstd::std_specs::cmp::PartialEqSpecImpl for Digest {
    open spec fn obeys_eq_spec() -> bool {
        true
    }

    open spec fn eq_spec(&self, o: &Digest) -> bool {
        self@ == o@
    }
}

impl Eq for Digest {

}

/// The identifier of an account, held as a field element.
#[derive(Clone, Copy, Debug, PartialEq, Eq, Structural)]
pub struct AccountId {
    value: Felt,
}

impl View for AccountId {
    type V = u64;

    closed spec fn view(&self) -> u64 {
        self.value@
    }
}

impl AccountId {
    /// The identifier held by the given field element.
    pub fn from_felt(value: Felt) -> (r: AccountId)
        ensures
            r@ == value@,
    {
        AccountId { value }
    }

    /// The field element that holds this identifier.
    pub fn as_felt(&self) -> (r: Felt)
        ensures
            r@ == self@,
    {
        self.value
    }
}

/// The RPO-256 digest of a sequence of canonical field element values.
pub uninterp spec fn rpo256_of(elements: Seq<u64>) -> Seq<u64>;

/// Relies on `miden_crypto::hash::rpo::Rpo256::hash_elements`: the digest of a
/// sequence of field elements, which depends on the elements alone; each of its
/// four elements is a field element, whose `as_int` is canonical.
#[verifier::external_body]
fn rpo256_hash_elements(elements: &Vec<u64>) -> (r: [u64; 4])
    ensures
        r@ == rpo256_of(elements@),
        forall|i: int| 0 <= i < 4 ==> r@[i] < FIELD_MODULUS,
{
    let felts: Vec<miden_crypto::Felt> = elements.iter().map(|v| miden_crypto::Felt::new(*v)).collect();
    let d = miden_crypto::hash::rpo::Rpo256::hash_elements(&felts);
    let e = d.as_elements();
    [e[0].as_int(), e[1].as_int(), e[2].as_int(), e[3].as_int()]
}

/// The sixteen elements hashed into an account's commitment: the id, two zero
/// elements, the nonce, then the vault root, the storage commitment and the code
/// commitment.
pub open spec fn account_hash_input(
    id: u64,
    nonce: u64,
    vault_root: Seq<u64>,
    storage_commitment: Seq<u64>,
    code_commitment: Seq<u64>,
) -> Seq<u64> {
    seq![id, 0u64, 0u64, nonce] + vault_root + storage_commitment + code_commitment
}

/// Appends the canonical values of a digest to `out`.
fn push_digest(out: &mut Vec<u64>, d: &Digest)
    ensures
        final(out)@ == old(out)@ + d@,
{
    let v = d.as_ints();
    out.push(v[0]);
    out.push(v[1]);
    out.push(v[2]);
    out.push(v[3]);
    assert(final(out)@ =~= old(out)@ + d@);
}

/// The sixteen element values that commit to an account's state, laid out as
/// `account_hash_input` says.
pub fn account_hash_elements(
    id: AccountId,
    nonce: Felt,
    vault_root: Digest,
    storage_commitment: Digest,
    code_commitment: Digest,
) -> (r: Vec<u64>)
    ensures
        r@ == account_hash_input(id@, nonce@, vault_root@, storage_commitment@, code_commitment@),
        r@.len() == 16,
{
    let mut v: Vec<u64> = Vec::new();
    v.push(id.as_felt().as_int());
    v.push(0);
    v.push(0);
    v.push(nonce.as_int());
    push_digest(&mut v, &vault_root);
    push_digest(&mut v, &storage_commitment);
    push_digest(&mut v, &code_commitment);
    assert(v@ =~= account_hash_input(id@, nonce@, vault_root@, storage_commitment@, code_commitment@));
    v
}

/// The commitment to an account's state: the RPO-256 digest of the sixteen
/// elements that `account_hash_input` lays out.
pub fn hash_account(
    id: AccountId,
    nonce: Felt,
    vault_root: Digest,
    storage_commitment: Digest,
    code_commitment: Digest,
) -> (r: Digest)
    ensures
        r@ == rpo256_of(
            account_hash_input(id@, nonce@, vault_root@, storage_commitment@, code_commitment@),
        ),
{
    let elements = account_hash_elements(id, nonce, vault_root, storage_commitment, code_commitment);
    let h = rpo256_hash_elements(&elements);
    Digest::from_ints(h).unwrap()
}

/// What an account header holds, as plain values.
pub ghost struct AccountHeaderView {
    pub id: u64,
    pub nonce: u64,
    pub vault_root: Seq<u64>,
    pub storage_commitment: Seq<u64>,
    pub code_commitment: Seq<u64>,
}

/// A header of an account, which succinctly describes the state of the account's
/// components: its id, its nonce, and commitments to its vault, storage and code.
#[derive(Clone, Copy, Debug)]
pub struct AccountHeader {
    id: AccountId,
    nonce: Felt,
    vault_root: Digest,
    storage_commitment: Digest,
    code_commitment: Digest,
}

impl View for AccountHeader {
    type V = AccountHeaderView;

    closed spec fn view(&self) -> AccountHeaderView {
        AccountHeaderView {
            id: self.id@,
            nonce: self.nonce@,
            vault_root: self.vault_root@,
            storage_commitment: self.storage_commitment@,
            code_commitment: self.code_commitment@,
        }
    }
}

impl AccountHeader {
    /// A header with the given parts.
    pub fn new(
        id: AccountId,
        nonce: Felt,
        vault_root: Digest,
        storage_commitment: Digest,
        code_commitment: Digest,
    ) -> (r: AccountHeader)
        ensures
            r@ == (AccountHeaderView {
                id: id@,
                nonce: nonce@,
                vault_root: vault_root@,
                storage_commitment: storage_commitment@,
                code_commitment: code_commitment@,
            }),
    {
        AccountHeader { id, nonce, vault_root, storage_commitment, code_commitment }
    }

    /// The commitment to this account's state (see `hash_account`).
    pub fn hash(&self) -> (r: Digest)
        ensures
            r@ == rpo256_of(
                account_hash_input(
                    self@.id,
                    self@.nonce,
                    self@.vault_root,
                    self@.storage_commitment,
                    self@.code_commitment,
                ),
            ),
    {
        hash_account(
            self.id,
            self.nonce,
            self.vault_root,
            self.storage_commitment,
            self.code_commitment,
        )
    }

    /// The id of this account.
    pub fn id(&self) -> (r: AccountId)
        ensures
            r@ == self@.id,
    {
        self.id
    }

    /// The nonce of this account.
    pub fn nonce(&self) -> (r: Felt)
        ensures
            r@ == self@.nonce,
    {
        self.nonce
    }

    /// The commitment to this account's vault.
    pub fn vault_root(&self) -> (r: Digest)
        ensures
            r@ == self@.vault_root,
    {
        self.vault_root
    }

    /// The commitment to this account's storage.
    pub fn storage_commitment(&self) -> (r: Digest)
        ensures
            r@ == self@.storage_commitment,
    {
        self.storage_commitment
    }

    /// The commitment to this account's code.
    pub fn code_commitment(&self) -> (r: Digest)
        ensures
            r@ == self@.code_commitment,
    {
        self.code_commitment
    }
}

impl PartialEq for AccountHeader {
    fn eq(&self, o: &AccountHeader) -> (r: bool) {
        self.id == o.id && self.nonce == o.nonce && self.vault_root == o.vault_root
            && self.storage_commitment == o.storage_commitment
            && self.code_commitment == o.code_commitment
    }
}

impl vstd::std_specs::cmp::PartialEqSpecImpl for AccountHeader {
    open spec fn obeys_eq_spec() -> bool {
        true
    }

    open spec fn eq_spec(&self, o: &AccountHeader) -> bool {
        self@ == o@
    }
}

impl Eq for AccountHeader {

}

} // verus!
