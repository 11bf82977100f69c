use multisig_core::registry::{
    program_entry_pda_seed, program_id_to_bytes, register, registry_state_pda_seed, update,
    ProgramEntry, RegisterArgs, RegistryError, RegistryState, UpdateArgs,
};
use multisig_core::AccountRef;

fn dummy_program_id(fill: u32) -> [u32; 8] {
    [fill; 8]
}

fn test_program_id() -> [u32; 8] {
    [1u32, 2, 3, 4, 5, 6, 7, 8]
}

fn default_args() -> RegisterArgs {
    RegisterArgs {
        program_id: test_program_id(),
        name: "test-program".to_string(),
        version: "0.1.0".to_string(),
        idl_cid: "bafy2bzacedqwerty".to_string(),
        description: "A test program".to_string(),
        tags: vec!["test".to_string(), "example".to_string()],
    }
}

fn author(id: [u8; 32], authorized: bool) -> AccountRef {
    AccountRef { id, is_authorized: authorized }
}

fn make_entry(author_id: &[u8; 32]) -> ProgramEntry {
    ProgramEntry::new(
        test_program_id(),
        "test-program".to_string(),
        "0.1.0".to_string(),
        *author_id,
        "bafy_original_cid".to_string(),
        "Original description".to_string(),
        1000,
        vec!["original_tag".to_string()],
    )
}

fn default_update_args() -> UpdateArgs {
    UpdateArgs {
        program_id: test_program_id(),
        version: "0.2.0".to_string(),
        idl_cid: "bafy_new_cid".to_string(),
        description: "Updated description".to_string(),
        tags: vec!["updated".to_string()],
    }
}

#[test]
fn test_registry_state_pda_seed_is_deterministic() {
    let s1 = registry_state_pda_seed();
    let s2 = registry_state_pda_seed();
    assert_eq!(s1, s2);
}

#[test]
fn registry_state_seed_holds_the_tag() {
    let s = registry_state_pda_seed();
    assert_eq!(&s[..16], b"registry_state__");
    assert!(s[16..].iter().all(|b| *b == 0));
}

#[test]
fn test_program_entry_pda_seed_differs_by_program_id() {
    let pid1 = dummy_program_id(1);
    let pid2 = dummy_program_id(2);
    let s1 = program_entry_pda_seed(&pid1);
    let s2 = program_entry_pda_seed(&pid2);
    assert_ne!(s1, s2);
}

#[test]
fn program_entry_seed_is_tag_xor_id() {
    let s = program_entry_pda_seed(&[0u32; 8]);
    assert_eq!(&s[..16], b"program_entry___");
    let s = program_entry_pda_seed(&[0x01020304, 0, 0, 0, 0, 0, 0, 0xff]);
    assert_eq!(s[0], b'p' ^ 0x01);
    assert_eq!(s[3], b'g' ^ 0x04);
    assert_eq!(s[31], 0xff);
}

#[test]
fn test_program_id_to_bytes_roundtrip() {
    let pid: [u32; 8] = [0x01020304, 0x05060708, 0, 0, 0, 0, 0, 0];
    let bytes = program_id_to_bytes(&pid);
    assert_eq!(bytes[0], 0x01);
    assert_eq!(bytes[1], 0x02);
    assert_eq!(bytes[2], 0x03);
    assert_eq!(bytes[3], 0x04);
    assert_eq!(bytes[4], 0x05);
}

#[test]
fn program_id_bytes_cover_every_word() {
    let pid: [u32; 8] = [0, 0, 0, 0, 0, 0, 0, 0xa1b2c3d4];
    let bytes = program_id_to_bytes(&pid);
    assert_eq!(&bytes[28..], &[0xa1, 0xb2, 0xc3, 0xd4]);
    assert!(bytes[..28].iter().all(|b| *b == 0));
}

#[test]
fn test_registry_state_increment() {
    let mut state = RegistryState::new([0u8; 32]);
    assert_eq!(state.program_count, 0);
    assert_eq!(state.increment(), 1);
    assert_eq!(state.increment(), 2);
    assert_eq!(state.program_count, 2);
}

#[test]
fn test_register_creates_entry_and_increments_count() {
    let args = default_args();
    let author_id = [1u8; 32];
    let (state, entry) = register(None, author(author_id, true), true, &args, 12345).unwrap();
    assert_eq!(state.program_count, 1);
    assert_eq!(state.authority, author_id);
    assert_eq!(entry.name, "test-program");
    assert_eq!(entry.version, "0.1.0");
    assert_eq!(entry.idl_cid, "bafy2bzacedqwerty");
    assert_eq!(entry.description, "A test program");
    assert_eq!(entry.registered_at, 12345);
    assert_eq!(entry.tags, vec!["test".to_string(), "example".to_string()]);
    assert_eq!(entry.author, author_id);
    assert_eq!(entry.program_id, test_program_id());
}

#[test]
fn test_register_increments_existing_count() {
    let args = default_args();
    let existing_state = RegistryState { authority: [0u8; 32], program_count: 3 };
    let (state, _) = register(Some(existing_state), author([1u8; 32], true), true, &args, 99999).unwrap();
    assert_eq!(state.program_count, 4);
    assert_eq!(state.authority, [0u8; 32]);
}

#[test]
fn register_refuses_unsigned_author() {
    let r = register(None, author([1u8; 32], false), true, &default_args(), 0);
    assert_eq!(r.unwrap_err(), RegistryError::NotSigned);
}

#[test]
fn register_refuses_empty_name_and_version() {
    let mut args = default_args();
    args.name = String::new();
    assert_eq!(register(None, author([1u8; 32], true), true, &args, 0).unwrap_err(), RegistryError::EmptyName);
    let mut args = default_args();
    args.version = String::new();
    assert_eq!(register(None, author([1u8; 32], true), true, &args, 0).unwrap_err(), RegistryError::EmptyVersion);
}

#[test]
fn register_refuses_initialized_entry() {
    let r = register(None, author([1u8; 32], true), false, &default_args(), 0);
    assert_eq!(r.unwrap_err(), RegistryError::EntryAlreadyInitialized);
}

#[test]
fn register_refuses_exhausted_counter() {
    let full = RegistryState { authority: [0u8; 32], program_count: u64::MAX };
    let r = register(Some(full), author([1u8; 32], true), true, &default_args(), 0);
    assert_eq!(r.unwrap_err(), RegistryError::CountExhausted);
}

#[test]
fn test_update_changes_metadata() {
    let author_id = [1u8; 32];
    let entry = make_entry(&author_id);
    let args = default_update_args();
    let updated = update(Some(entry), author(author_id, true), &args).unwrap();
    assert_eq!(updated.version, "0.2.0");
    assert_eq!(updated.idl_cid, "bafy_new_cid");
    assert_eq!(updated.description, "Updated description");
    assert_eq!(updated.tags, vec!["updated".to_string()]);
    assert_eq!(updated.name, "test-program");
    assert_eq!(updated.registered_at, 1000);
    assert_eq!(updated.author, author_id);
}

#[test]
fn test_update_preserves_fields_when_empty() {
    let author_id = [1u8; 32];
    let entry = make_entry(&author_id);
    let args = UpdateArgs {
        program_id: test_program_id(),
        version: "0.3.0".to_string(),
        idl_cid: String::new(),
        description: String::new(),
        tags: vec![],
    };
    let updated = update(Some(entry), author(author_id, true), &args).unwrap();
    assert_eq!(updated.version, "0.3.0");
    assert_eq!(updated.idl_cid, "bafy_original_cid");
    assert_eq!(updated.description, "Original description");
    assert_eq!(updated.tags, vec!["original_tag".to_string()]);
}

#[test]
fn update_refuses_unsigned_author() {
    let entry = make_entry(&[1u8; 32]);
    let r = update(Some(entry), author([1u8; 32], false), &default_update_args());
    assert_eq!(r.unwrap_err(), RegistryError::NotSigned);
}

#[test]
fn update_refuses_other_author() {
    let entry = make_entry(&[1u8; 32]);
    let r = update(Some(entry), author([99u8; 32], true), &default_update_args());
    assert_eq!(r.unwrap_err(), RegistryError::NotAuthor);
}

#[test]
fn update_refuses_missing_entry() {
    let r = update(None, author([1u8; 32], true), &default_update_args());
    assert_eq!(r.unwrap_err(), RegistryError::EntryNotInitialized);
}
