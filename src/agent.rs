use crate::error::{PivError, SignError};
use crate::sign::{prepare_sign_data, prepared_input, to_ssh_signature, SshSignature};
use crate::guid::{encode_hex_upper, upper_hex, Guid};
use vstd::string::StringExecFns;
use crate::slot::{PivAlgorithm, PivSlot};
use vstd::prelude::*;

verus! {

/// The card-authentication slot, which signs without a PIN.
pub const SLOT_NO_PIN: u8 = 0x9E;

/// A key found on a card at startup, as the agent offers it.
pub struct CachedKey {
    pub guid: Guid,
    pub reader_name: String,
    pub slot_id: u8,
    pub algorithm: PivAlgorithm,
    /// The public key in SSH wire encoding.
    pub public_key: Vec<u8>,
    pub comment: String,
}

/// One entry of the identity list: a public key and its comment.
pub struct Identity {
    pub public_key: Vec<u8>,
    pub comment: String,
}

/// Whether two byte strings are equal.
pub fn bytes_equal(a: &[u8], b: &[u8]) -> (r: bool)
    ensures
        r == (a@ == b@),
{
    if a.len() != b.len() {
        return false;
    }
    let mut i: usize = 0;
    while i < a.len()
        invariant
            a@.len() == b@.len(),
            i <= a@.len(),
            forall|j: int| 0 <= j < i ==> a@[j] == b@[j],
        decreases a@.len() - i,
    {
        if a[i] != b[i] {
            return false;
        }
        i = i + 1;
    }
    assert(a@ =~= b@);
    true
}

/// The first cached key whose wire-encoded public key equals `public_key`.
pub fn find_key(keys: &[CachedKey], public_key: &[u8]) -> (r: Option<usize>)
    ensures
        match r {
            Some(i) => i < keys@.len() && keys@[i as int].public_key@ == public_key@ && forall|
                j: int,
            |
                0 <= j < i ==> keys@[j].public_key@ != public_key@,
            None => forall|j: int| 0 <= j < keys@.len() ==> keys@[j].public_key@ != public_key@,
        },
{
    let mut i: usize = 0;
    while i < keys.len()
        invariant
            i <= keys@.len(),
            forall|j: int| 0 <= j < i ==> keys@[j].public_key@ != public_key@,
        decreases keys@.len() - i,
    {
        if bytes_equal(keys[i].public_key.as_slice(), public_key) {
            return Some(i);
        }
        i = i + 1;
    }
    None
}

/// The index of the first token whose GUID is `guid`.
pub fn find_token(guids: &[Guid], guid: &Guid) -> (r: Option<usize>)
    ensures
        match r {
            Some(i) => i < guids@.len() && guids@[i as int]@ == guid@ && forall|j: int|
                0 <= j < i ==> guids@[j]@ != guid@,
            None => forall|j: int| 0 <= j < guids@.len() ==> guids@[j]@ != guid@,
        },
{
    let mut i: usize = 0;
    while i < guids.len()
        invariant
            i <= guids@.len(),
            forall|j: int| 0 <= j < i ==> guids@[j]@ != guid@,
        decreases guids@.len() - i,
    {
        if guids[i] == *guid {
            return Some(i);
        }
        i = i + 1;
    }
    None
}

/// The comment of a cached key: `PIV_slot_<slot as two hex digits> <short ID>`.
pub open spec fn comment_of(slot_id: u8, guid: Seq<u8>) -> Seq<char> {
    "PIV_slot_"@ + upper_hex(seq![slot_id]) + " "@ + upper_hex(guid.subrange(0, 4))
}

/// The comment of a cached key: `PIV_slot_<slot as two hex digits> <short ID>`.
pub fn key_comment(slot_id: u8, guid: &Guid) -> (r: String)
    ensures
        r@ == comment_of(slot_id, guid@),
{
    let slot: [u8; 1] = [slot_id];
    assert(slot@ =~= seq![slot_id]);
    let mut r = "PIV_slot_".to_owned();
    let digits = encode_hex_upper(slot.as_slice());
    r.append(digits.as_str());
    r.append(" ");
    let short = guid.short_id();
    r.append(short.as_str());
    r
}

/// Whether a GUID filter names this card, by its full hex or its short ID.
pub fn guid_matches_filter(guid: &Guid, filter: &str) -> (r: bool)
    ensures
        r == (upper_hex(guid@) == filter@ || upper_hex(guid@.subrange(0, 4)) == filter@),
{
    let f = filter.to_owned();
    let full = guid.to_hex();
    let short = guid.short_id();
    full == f || short == f
}

/// Whether a slot passes an optional allow-list.
pub fn slot_allowed(allowed: Option<&[u8]>, slot_id: u8) -> (r: bool)
    ensures
        r == (allowed is None || allowed->0@.contains(slot_id)),
{
    match allowed {
        None => true,
        Some(a) => {
            let mut i: usize = 0;
            while i < a.len()
                invariant
                    allowed == Some(a),
                    i <= a@.len(),
                    forall|j: int| 0 <= j < i ==> a@[j] != slot_id,
                decreases a@.len() - i,
            {
                if a[i] == slot_id {
                    assert(a@[i as int] == slot_id);
                    return true;
                }
                i = i + 1;
            }
            false
        },
    }
}

/// An optional allow-list of slots, as a sequence.
pub open spec fn allow_list(allowed: Option<&[u8]>) -> Option<Seq<u8>> {
    match allowed {
        Some(a) => Some(a@),
        None => None,
    }
}

/// Whether a slot passes an optional allow-list.
pub open spec fn passes(allowed: Option<Seq<u8>>, slot_id: u8) -> bool {
    allowed is None || allowed->0.contains(slot_id)
}

/// Whether `k` is the cached key for `slot` of the card `guid` in `reader_name`.
pub open spec fn caches_slot(k: CachedKey, guid: Guid, reader_name: Seq<char>, slot: PivSlot) -> bool {
    &&& k.guid == guid
    &&& k.reader_name@ == reader_name
    &&& k.slot_id == slot.spec_id()
    &&& k.algorithm == slot.spec_algorithm()
    &&& k.public_key@ == slot.spec_public_key()
    &&& k.comment@ == comment_of(slot.spec_id(), guid@)
}

/// The cached keys of one card: one per slot that passes the allow-list, in
/// slot order, each with its conventional comment.
pub fn cache_keys_for_token(
    guid: &Guid,
    reader_name: &str,
    slots: &[PivSlot],
    allowed: Option<&[u8]>,
) -> (r: Vec<CachedKey>)
    ensures
        ({
            let kept = slots@.filter(|s: PivSlot| passes(allow_list(allowed), s.spec_id()));
            &&& r@.len() == kept.len()
            &&& forall|i: int|
                0 <= i < r@.len() ==> caches_slot(#[trigger] r@[i], *guid, reader_name@, kept[i])
        }),
{
    let ghost pred = |s: PivSlot| passes(allow_list(allowed), s.spec_id());
    let mut out: Vec<CachedKey> = Vec::new();
    let mut i: usize = 0;
    while i < slots.len()
        invariant
            i <= slots@.len(),
            pred == (|s: PivSlot| passes(allow_list(allowed), s.spec_id())),
            out@.len() == slots@.subrange(0, i as int).filter(pred).len(),
            forall|j: int|
                0 <= j < out@.len() ==> caches_slot(
                    #[trigger] out@[j],
                    *guid,
                    reader_name@,
                    slots@.subrange(0, i as int).filter(pred)[j],
                ),
        decreases slots@.len() - i,
    {
        let slot = &slots[i];
        let ghost before = slots@.subrange(0, i as int);
        let ghost after = slots@.subrange(0, i + 1);
        assert(after.drop_last() =~= before);
        assert(after.last() == *slot);
        assert(after.filter(pred) == if pred(*slot) {
            before.filter(pred).push(*slot)
        } else {
            before.filter(pred)
        }) by {
            reveal(Seq::filter);
        }
        if slot_allowed(allowed, slot.id()) {
            out.push(
                CachedKey {
                    guid: *guid,
                    reader_name: reader_name.to_owned(),
                    slot_id: slot.id(),
                    algorithm: slot.algorithm(),
                    public_key: vstd::slice::slice_to_vec(slot.public_key()),
                    comment: key_comment(slot.id(), guid),
                },
            );
        }
        i = i + 1;
    }
    assert(slots@.subrange(0, i as int) =~= slots@);
    out
}

/// The agent's state: the identity cache, filled once at startup, and the
/// PIN cell, set by `unlock` and cleared by `lock` or the prober.
pub struct AgentSession {
    keys: Vec<CachedKey>,
    pin: Option<String>,
}

impl AgentSession {
    /// The identity cache.
    pub closed spec fn spec_keys(&self) -> Seq<CachedKey> {
        self.keys@
    }

    /// The PIN cell.
    pub closed spec fn spec_pin(&self) -> Option<Seq<char>> {
        match self.pin {
            Some(p) => Some(p@),
            None => None,
        }
    }

    /// A session over the given identities, with an empty PIN cell.
    pub fn new(keys: Vec<CachedKey>) -> (r: Self)
        ensures
            r.spec_keys() == keys@,
            r.spec_pin() is None,
    {
        AgentSession { keys, pin: None }
    }

    /// The cached identities.
    pub fn keys(&self) -> (r: &[CachedKey])
        ensures
            r@ == self.spec_keys(),
    {
        self.keys.as_slice()
    }

    /// The PIN, if one was supplied.
    pub fn pin(&self) -> (r: Option<&str>)
        ensures
            match r {
                Some(p) => self.spec_pin() == Some(p@),
                None => self.spec_pin() is None,
            },
    {
        match &self.pin {
            Some(p) => Some(p.as_str()),
            None => None,
        }
    }

    /// Every cached identity as `(public key, comment)`, in cache order.
    pub fn request_identities(&self) -> (r: Vec<Identity>)
        ensures
            r@.len() == self.spec_keys().len(),
            forall|i: int|
                0 <= i < r@.len() ==> r@[i].public_key@ == self.spec_keys()[i].public_key@
                    && r@[i].comment@ == self.spec_keys()[i].comment@,
    {
        let mut out: Vec<Identity> = Vec::new();
        let mut i: usize = 0;
        while i < self.keys.len()
            invariant
                i <= self.keys@.len(),
                out@.len() == i,
                forall|j: int|
                    0 <= j < i ==> out@[j].public_key@ == self.keys@[j].public_key@
                        && out@[j].comment@ == self.keys@[j].comment@,
            decreases self.keys@.len() - i,
        {
            let k = &self.keys[i];
            out.push(
                Identity {
                    public_key: vstd::slice::slice_to_vec(k.public_key.as_slice()),
                    comment: k.comment.clone(),
                },
            );
            i = i + 1;
        }
        out
    }

    /// The cached key that a sign request names by its public key. Nothing
    /// else is consulted: no card is touched before this lookup succeeds.
    pub fn lookup_key(&self, public_key: &[u8]) -> (r: Result<&CachedKey, SignError>)
        ensures
            (exists|j: int|
                0 <= j < self.spec_keys().len() && self.spec_keys()[j].public_key@ == public_key@)
                <==> r is Ok,
            r is Ok ==> r->Ok_0.public_key@ == public_key@ && exists|j: int|
                0 <= j < self.spec_keys().len() && self.spec_keys()[j] == *r->Ok_0,
            r is Err ==> r->Err_0 == SignError::KeyNotFound,
    {
        match find_key(self.keys.as_slice(), public_key) {
            Some(i) => Ok(&self.keys[i]),
            None => Err(SignError::KeyNotFound),
        }
    }

    /// The PIN to verify before signing with the key in `slot_id`: none for
    /// the card-authentication slot 0x9E, the PIN cell's value for any other
    /// slot, which fails with `PinRequired` when the cell is empty.
    pub fn pin_for_slot(&self, slot_id: u8) -> (r: Result<Option<String>, SignError>)
        ensures
            slot_id == SLOT_NO_PIN ==> r is Ok && r->Ok_0 is None,
            slot_id != SLOT_NO_PIN ==> match self.spec_pin() {
                Some(p) => r is Ok && r->Ok_0 is Some && r->Ok_0->0@ == p,
                None => r == Err::<Option<String>, SignError>(SignError::PinRequired),
            },
    {
        if slot_id == SLOT_NO_PIN {
            return Ok(None);
        }
        match &self.pin {
            Some(p) => Ok(Some(p.clone())),
            None => Err(SignError::PinRequired),
        }
    }

    /// Set the PIN cell to the supplied PIN.
    pub fn unlock(&mut self, pin: String)
        ensures
            final(self).spec_pin() == Some(pin@),
            final(self).spec_keys() == old(self).spec_keys(),
    {
        self.pin = Some(pin);
    }

    /// Clear the PIN cell. The argument is accepted for protocol
    /// compatibility and ignored.
    pub fn lock(&mut self, _key: String)
        ensures
            final(self).spec_pin() is None,
            final(self).spec_keys() == old(self).spec_keys(),
    {
        self.pin = None;
    }

    /// Forget the PIN, as the prober does when the card has gone away.
    pub fn clear_pin(&mut self)
        ensures
            final(self).spec_pin() is None,
            final(self).spec_keys() == old(self).spec_keys(),
    {
        self.pin = None;
    }
}

/// What a sign request needs next from the card, or how it ended.
pub enum SignStep {
    /// Verify this PIN on the card.
    VerifyPin { pin: String },
    /// Ask the card to sign these prepared bytes with the key in `slot_id`.
    SignOnCard { slot_id: u8, data: Vec<u8> },
    /// The request failed.
    Failed(SignError),
}

/// The step that asks the card to sign `data` with the key in `slot`.
pub open spec fn asks_to_sign(step: SignStep, slot: u8, data: Seq<u8>) -> bool {
    step matches SignStep::SignOnCard { slot_id, data: d } && slot_id == slot && d@ == data
}

/// The step that asks the card to verify the PIN `pin`.
pub open spec fn asks_for_pin(step: SignStep, pin: Seq<char>) -> bool {
    step matches SignStep::VerifyPin { pin: p } && p@ == pin
}

/// A sign request in progress. The caller performs the card work that each
/// step asks for and hands back its outcome: first it looks for the card
/// with `card_guid`, then it follows the returned steps.
pub struct SignFlow {
    pub guid: Guid,
    pub slot_id: u8,
    pub algorithm: PivAlgorithm,
    pub data: Vec<u8>,
    pub flags: u32,
}

impl SignFlow {
    /// Start a sign request for the key with wire-encoded `public_key`. A key
    /// that is not in the cache fails with `KeyNotFound`, before any card is
    /// asked for.
    pub fn start(session: &AgentSession, public_key: &[u8], data: &[u8], flags: u32) -> (r: Result<
        SignFlow,
        SignError,
    >)
        ensures
            (exists|j: int|
                0 <= j < session.spec_keys().len() && session.spec_keys()[j].public_key@
                    == public_key@) <==> r is Ok,
            r is Err ==> r->Err_0 == SignError::KeyNotFound,
            r is Ok ==> exists|j: int|
                0 <= j < session.spec_keys().len() && session.spec_keys()[j].public_key@
                    == public_key@ && r->Ok_0.guid == session.spec_keys()[j].guid
                    && r->Ok_0.slot_id == session.spec_keys()[j].slot_id && r->Ok_0.algorithm
                    == session.spec_keys()[j].algorithm,
            r is Ok ==> r->Ok_0.data@ == data@ && r->Ok_0.flags == flags,
    {
        match session.lookup_key(public_key) {
            Ok(key) => Ok(
                SignFlow {
                    guid: key.guid,
                    slot_id: key.slot_id,
                    algorithm: key.algorithm,
                    data: vstd::slice::slice_to_vec(data),
                    flags,
                },
            ),
            Err(e) => Err(e),
        }
    }

    /// The GUID of the card to look for.
    pub fn card_guid(&self) -> (r: Guid)
        ensures
            r == self.guid,
    {
        self.guid
    }

    fn sign_step(&self) -> (r: SignStep)
        ensures
            asks_to_sign(r, self.slot_id, prepared_input(self.algorithm, self.data@, self.flags)),
    {
        match prepare_sign_data(self.algorithm, self.data.as_slice(), self.flags) {
            Ok(prepared) => SignStep::SignOnCard { slot_id: self.slot_id, data: prepared },
            Err(e) => SignStep::Failed(e),
        }
    }

    /// The next step once the card search is over: without the card the
    /// request fails with `CardUnavailable`; the card-authentication slot
    /// signs at once, whatever the PIN cell holds; any other slot needs the
    /// PIN from the cell, and fails with `PinRequired` when it is empty.
    pub fn after_card_search(&self, found: bool, session: &AgentSession) -> (r: SignStep)
        ensures
            !found ==> r == SignStep::Failed(SignError::CardUnavailable),
            found && self.slot_id == SLOT_NO_PIN ==> asks_to_sign(
                r,
                self.slot_id,
                prepared_input(self.algorithm, self.data@, self.flags),
            ),
            found && self.slot_id != SLOT_NO_PIN ==> match session.spec_pin() {
                Some(p) => asks_for_pin(r, p),
                None => r == SignStep::Failed(SignError::PinRequired),
            },
    {
        if !found {
            return SignStep::Failed(SignError::CardUnavailable);
        }
        match session.pin_for_slot(self.slot_id) {
            Ok(None) => self.sign_step(),
            Ok(Some(pin)) => SignStep::VerifyPin { pin },
            Err(e) => SignStep::Failed(e),
        }
    }

    /// The next step once the card has answered VERIFY.
    pub fn after_pin(&self, outcome: Result<(), PivError>) -> (r: SignStep)
        ensures
            outcome is Err ==> r == SignStep::Failed(SignError::Card(outcome->Err_0)),
            outcome is Ok ==> asks_to_sign(
                r,
                self.slot_id,
                prepared_input(self.algorithm, self.data@, self.flags),
            ),
    {
        match outcome {
            Ok(()) => self.sign_step(),
            Err(e) => SignStep::Failed(SignError::Card(e)),
        }
    }

    /// The signature in SSH form once the card has answered GENERAL AUTHENTICATE.
    pub fn after_sign(&self, outcome: Result<Vec<u8>, PivError>) -> (r: Result<
        SshSignature,
        SignError,
    >)
        ensures
            outcome is Err ==> r == Err::<SshSignature, SignError>(
                SignError::Card(outcome->Err_0),
            ),
            outcome is Ok ==> match self.algorithm {
                PivAlgorithm::EcP256 | PivAlgorithm::EcP384 => match crate::sign::der_ecdsa(
                    outcome->Ok_0@,
                ) {
                    Some((rr, ss)) => r is Ok && r->Ok_0.algorithm@
                        == crate::sign::ssh_algorithm_name(self.algorithm, self.flags)
                        && r->Ok_0.blob@ == crate::sign::ssh_ecdsa_blob(rr, ss),
                    None => r == Err::<SshSignature, SignError>(SignError::MalformedSignature),
                },
                _ => r is Ok && r->Ok_0.algorithm@ == crate::sign::ssh_algorithm_name(
                    self.algorithm,
                    self.flags,
                ) && r->Ok_0.blob@ == outcome->Ok_0@,
            },
    {
        match outcome {
            Ok(raw) => to_ssh_signature(self.algorithm, raw.as_slice(), self.flags),
            Err(e) => Err(SignError::Card(e)),
        }
    }
}

} // verus!
