//! A directory of deployed programs: each entry records a program's
//! metadata and its author, who alone may update it.
use vstd::prelude::*;

use crate::ids::{same_id, AccountId, AccountRef, PdaSeed, ProgramId};

verus! {

/// Arguments of `Register`.
#[derive(Clone, Debug)]
pub struct RegisterArgs {
    pub program_id: ProgramId,
    pub name: String,
    pub version: String,
    /// Content identifier of the program's interface description.
    pub idl_cid: String,
    pub description: String,
    pub tags: Vec<String>,
}

/// Arguments of `Update`; an empty field keeps the stored value.
#[derive(Clone, Debug)]
pub struct UpdateArgs {
    pub program_id: ProgramId,
    pub version: String,
    pub idl_cid: String,
    pub description: String,
    pub tags: Vec<String>,
}

/// The registry's own record.
#[derive(Clone, Debug, Default)]
pub struct RegistryState {
    /// The account that set the registry up.
    pub authority: AccountId,
    /// How many programs have been registered.
    pub program_count: u64,
}

/// The record of one registered program.
#[derive(Clone, Debug)]
pub struct ProgramEntry {
    pub program_id: ProgramId,
    pub name: String,
    pub version: String,
    /// Who registered the program; only they may update the entry.
    pub author: AccountId,
    pub idl_cid: String,
    pub description: String,
    /// Time of registration, in seconds, as the host supplied it.
    pub registered_at: u64,
    pub tags: Vec<String>,
}

/// Why a registry instruction was refused.
#[derive(Clone, Copy, Debug, PartialEq, Eq, Structural)]
pub enum RegistryError {
    /// The author did not sign the transaction.
    NotSigned,
    /// The entry account already holds data.
    EntryAlreadyInitialized,
    /// The program name is empty.
    EmptyName,
    /// The version is empty.
    EmptyVersion,
    /// The entry account holds no entry yet.
    EntryNotInitialized,
    /// The signer is not the entry's author.
    NotAuthor,
    /// The program counter cannot grow any further.
    CountExhausted,
}

impl RegistryState {
    /// A registry set up by `authority`, with nothing registered.
    pub fn new(authority: AccountId) -> (r: Self)
        ensures
            r.authority == authority,
            r.program_count == 0,
    {
        RegistryState { authority, program_count: 0 }
    }

    /// Counts one more program and returns the new count.
    pub fn increment(&mut self) -> (r: u64)
        requires
            old(self).program_count < u64::MAX,
        ensures
            r == old(self).program_count + 1,
            final(self).program_count == r,
            final(self).authority == old(self).authority,
    {
        self.program_count = self.program_count + 1;
        self.program_count
    }
}

impl ProgramEntry {
    /// An entry with the given fields.
    pub fn new(
        program_id: ProgramId,
        name: String,
        version: String,
        author: AccountId,
        idl_cid: String,
        description: String,
        registered_at: u64,
        tags: Vec<String>,
    ) -> (r: Self)
        ensures
            r == (ProgramEntry {
                program_id,
                name,
                version,
                author,
                idl_cid,
                description,
                registered_at,
                tags,
            }),
    {
        ProgramEntry { program_id, name, version, author, idl_cid, description, registered_at, tags }
    }
}

/// Byte `k` (0 the most significant) of the big-endian form of `w`.
pub open spec fn be_byte(w: u32, k: u32) -> u8 {
    ((w >> (24 - 8 * k) as u32) & 0xff) as u8
}

/// The 32 bytes of a program id: each word in big-endian order.
pub open spec fn program_id_bytes(program_id: ProgramId) -> Seq<u8> {
    Seq::new(32, |i: int| be_byte(program_id@[i / 4], (i % 4) as u32))
}

/// The ASCII tag of the registry's own record, padded with zeros.
pub open spec fn registry_state_tag() -> Seq<u8> {
    seq![
        114u8, 101, 103, 105, 115, 116, 114, 121, 95, 115, 116, 97, 116, 101, 95, 95,
        0, 0, 0, 0, 0, 0, 0, 0, 0, 0, 0, 0, 0, 0, 0, 0,
    ]
}

/// The ASCII tag of program entries, padded with zeros.
pub open spec fn program_entry_tag() -> Seq<u8> {
    seq![
        112u8, 114, 111, 103, 114, 97, 109, 95, 101, 110, 116, 114, 121, 95, 95, 95,
        0, 0, 0, 0, 0, 0, 0, 0, 0, 0, 0, 0, 0, 0, 0, 0,
    ]
}

/// The seed of a program's entry: the entry tag XOR the program id's bytes.
pub open spec fn entry_seed(program_id: ProgramId) -> Seq<u8> {
    Seq::new(32, |i: int| program_entry_tag()[i] ^ program_id_bytes(program_id)[i])
}

/// The four big-endian bytes of a word determine it.
pub proof fn lemma_be_bytes_injective(a: u32, b: u32)
    requires
        be_byte(a, 0) == be_byte(b, 0),
        be_byte(a, 1) == be_byte(b, 1),
        be_byte(a, 2) == be_byte(b, 2),
        be_byte(a, 3) == be_byte(b, 3),
    ensures
        a == b,
{
    assert(((a >> 24u32) & 0xff) as u8 == ((b >> 24u32) & 0xff) as u8);
    assert(((a >> 16u32) & 0xff) as u8 == ((b >> 16u32) & 0xff) as u8);
    assert(((a >> 8u32) & 0xff) as u8 == ((b >> 8u32) & 0xff) as u8);
    assert(((a >> 0u32) & 0xff) as u8 == ((b >> 0u32) & 0xff) as u8);
    assert(
        ((a >> 24u32) & 0xff) as u8 == ((b >> 24u32) & 0xff) as u8
        && ((a >> 16u32) & 0xff) as u8 == ((b >> 16u32) & 0xff) as u8
        && ((a >> 8u32) & 0xff) as u8 == ((b >> 8u32) & 0xff) as u8
        && ((a >> 0u32) & 0xff) as u8 == ((b >> 0u32) & 0xff) as u8 ==> a == b
    ) by (bit_vector);
}

/// Different programs get different entry seeds, so their entries live at
/// different addresses.
pub proof fn lemma_entry_seeds_distinct(p1: ProgramId, p2: ProgramId)
    requires
        p1 != p2,
    ensures
        entry_seed(p1) != entry_seed(p2),
{
    let w = choose|w: int| 0 <= w < 8 && p1@[w] != p2@[w];
    assert(exists|w: int| 0 <= w < 8 && p1@[w] != p2@[w]) by {
        if forall|w: int| 0 <= w < 8 ==> p1@[w] == p2@[w] {
            assert(p1 =~= p2);
        }
    }
    if entry_seed(p1) == entry_seed(p2) {
        assert forall|k: u32| k < 4 implies #[trigger] be_byte(p1@[w], k) == be_byte(p2@[w], k) by {
            let i = 4 * w + k;
            let t = program_entry_tag()[i];
            let x = program_id_bytes(p1)[i];
            let y = program_id_bytes(p2)[i];
            assert(entry_seed(p1)[i] == entry_seed(p2)[i]);
            assert(t ^ x == t ^ y ==> x == y) by (bit_vector);
            assert(i / 4 == w && i % 4 == k as int);
        }
        assert(be_byte(p1@[w], 0) == be_byte(p2@[w], 0));
        assert(be_byte(p1@[w], 1) == be_byte(p2@[w], 1));
        assert(be_byte(p1@[w], 2) == be_byte(p2@[w], 2));
        assert(be_byte(p1@[w], 3) == be_byte(p2@[w], 3));
        lemma_be_bytes_injective(p1@[w], p2@[w]);
    }
}

/// The seed of the registry's own record: `registry_state__` padded with
/// zeros.
pub fn registry_state_pda_seed() -> (r: PdaSeed)
    ensures
        r@ == registry_state_tag(),
{
    let r: [u8; 32] = [
        114u8, 101, 103, 105, 115, 116, 114, 121, 95, 115, 116, 97, 116, 101, 95, 95,
        0, 0, 0, 0, 0, 0, 0, 0, 0, 0, 0, 0, 0, 0, 0, 0,
    ];
    assert(r@ =~= registry_state_tag());
    r
}

/// A program id as 32 bytes, each word big-endian.
pub fn program_id_to_bytes(program_id: &ProgramId) -> (r: [u8; 32])
    ensures
        r@ == program_id_bytes(*program_id),
{
    let mut bytes: [u8; 32] = [0u8; 32];
    let mut i: usize = 0;
    while i < 32
        invariant
            0 <= i <= 32,
            forall|j: int| 0 <= j < i ==> #[trigger] bytes@[j] == program_id_bytes(*program_id)[j],
        decreases 32 - i,
    {
        let w = program_id[i / 4];
        let k = (i % 4) as u32;
        let b = ((w >> (24 - 8 * k)) & 0xff) as u8;
        bytes.set(i, b);
        i = i + 1;
    }
    assert(bytes@ =~= program_id_bytes(*program_id));
    bytes
}

/// The seed of a program's entry: the entry tag XOR the program id's bytes,
/// so that different programs get different seeds.
pub fn program_entry_pda_seed(program_id: &ProgramId) -> (r: PdaSeed)
    ensures
        r@ == entry_seed(*program_id),
{
    let pid = program_id_to_bytes(program_id);
    let mut seed: [u8; 32] = [
        112u8, 114, 111, 103, 114, 97, 109, 95, 101, 110, 116, 114, 121, 95, 95, 95,
        0, 0, 0, 0, 0, 0, 0, 0, 0, 0, 0, 0, 0, 0, 0, 0,
    ];
    assert(seed@ =~= program_entry_tag());
    let mut i: usize = 0;
    while i < 32
        invariant
            0 <= i <= 32,
            pid@ == program_id_bytes(*program_id),
            forall|j: int| 0 <= j < i ==> #[trigger] seed@[j] == program_entry_tag()[j] ^ pid@[j],
            forall|j: int| i <= j < 32 ==> #[trigger] seed@[j] == program_entry_tag()[j],
        decreases 32 - i,
    {
        let b = seed[i] ^ pid[i];
        seed.set(i, b);
        i = i + 1;
    }
    assert(seed@ =~= entry_seed(*program_id));
    seed
}

/// A copy of a list of strings, element for element.
fn copy_strings(v: &Vec<String>) -> (r: Vec<String>)
    ensures
        r@ == v@,
{
    let mut out: Vec<String> = Vec::new();
    let mut i: usize = 0;
    while i < v.len()
        invariant
            0 <= i <= v.len(),
            out@ == v@.subrange(0, i as int),
        decreases v.len() - i,
    {
        out.push(v[i].clone());
        assert(out@ =~= v@.subrange(0, i + 1));
        i = i + 1;
    }
    assert(v@.subrange(0, v.len() as int) =~= v@);
    out
}

/// `Register`: records a new entry for `args` by `author` at `timestamp` and
/// counts it. `state` is the registry's record, `None` before the first
/// registration, and `entry_is_blank` says whether the entry account is
/// still empty.
pub fn register(
    state: Option<RegistryState>,
    author: AccountRef,
    entry_is_blank: bool,
    args: &RegisterArgs,
    timestamp: u64,
) -> (r: Result<(RegistryState, ProgramEntry), RegistryError>)
    ensures
        ({
            let before = match state {
                Some(s) => s,
                None => RegistryState { authority: author.id, program_count: 0 },
            };
            match r {
                Ok((s, e)) => {
                    &&& author.is_authorized && entry_is_blank
                    &&& args.name@.len() > 0 && args.version@.len() > 0
                    &&& before.program_count < u64::MAX
                    &&& s.authority == before.authority
                    &&& s.program_count == before.program_count + 1
                    &&& e == (ProgramEntry {
                        program_id: args.program_id,
                        name: args.name,
                        version: args.version,
                        author: author.id,
                        idl_cid: args.idl_cid,
                        description: args.description,
                        registered_at: timestamp,
                        tags: e.tags,
                    })
                    &&& e.tags@ == args.tags@
                },
                Err(err) => err == if !author.is_authorized {
                    RegistryError::NotSigned
                } else if !entry_is_blank {
                    RegistryError::EntryAlreadyInitialized
                } else if args.name@.len() == 0 {
                    RegistryError::EmptyName
                } else if args.version@.len() == 0 {
                    RegistryError::EmptyVersion
                } else {
                    RegistryError::CountExhausted
                } && (err is CountExhausted ==> before.program_count == u64::MAX),
            }
        }),
{
    if !author.is_authorized {
        return Err(RegistryError::NotSigned);
    }
    if !entry_is_blank {
        return Err(RegistryError::EntryAlreadyInitialized);
    }
    if args.name.as_str().is_empty() {
        return Err(RegistryError::EmptyName);
    }
    if args.version.as_str().is_empty() {
        return Err(RegistryError::EmptyVersion);
    }
    let mut s = match state {
        Some(s) => s,
        None => RegistryState::new(author.id),
    };
    if s.program_count == u64::MAX {
        return Err(RegistryError::CountExhausted);
    }
    s.increment();
    let entry = ProgramEntry::new(
        args.program_id,
        args.name.clone(),
        args.version.clone(),
        author.id,
        args.idl_cid.clone(),
        args.description.clone(),
        timestamp,
        copy_strings(&args.tags),
    );
    Ok((s, entry))
}

/// `Update`: the entry with the non-empty fields of `args` put in place of
/// the stored ones; only the entry's author may do this. `entry` is `None`
/// while the entry account is still empty.
pub fn update(entry: Option<ProgramEntry>, author: AccountRef, args: &UpdateArgs) -> (r: Result<
    ProgramEntry,
    RegistryError,
>)
    ensures
        match r {
            Ok(e) => {
                &&& author.is_authorized
                &&& entry matches Some(old) && {
                    &&& old.author == author.id
                    &&& e.program_id == old.program_id
                    &&& e.name == old.name
                    &&& e.author == old.author
                    &&& e.registered_at == old.registered_at
                    &&& e.version == if args.version@.len() == 0 { old.version } else { args.version }
                    &&& e.idl_cid == if args.idl_cid@.len() == 0 { old.idl_cid } else { args.idl_cid }
                    &&& e.description == if args.description@.len() == 0 {
                        old.description
                    } else {
                        args.description
                    }
                    &&& e.tags@ == if args.tags@.len() == 0 { old.tags@ } else { args.tags@ }
                }
            },
            Err(err) => err == if !author.is_authorized {
                RegistryError::NotSigned
            } else if entry is None {
                RegistryError::EntryNotInitialized
            } else {
                RegistryError::NotAuthor
            } && (err is NotAuthor ==> entry->0.author != author.id),
        },
{
    if !author.is_authorized {
        return Err(RegistryError::NotSigned);
    }
    let mut e = match entry {
        Some(e) => e,
        None => return Err(RegistryError::EntryNotInitialized),
    };
    if !same_id(&e.author, &author.id) {
        return Err(RegistryError::NotAuthor);
    }
    if !args.version.as_str().is_empty() {
        e.version = args.version.clone();
    }
    if !args.idl_cid.as_str().is_empty() {
        e.idl_cid = args.idl_cid.clone();
    }
    if !args.description.as_str().is_empty() {
        e.description = args.description.clone();
    }
    if args.tags.len() > 0 {
        e.tags = copy_strings(&args.tags);
    }
    Ok(e)
}

} // verus!
