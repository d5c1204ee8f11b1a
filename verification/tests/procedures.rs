use stronghold::identity::RecordHint;
use stronghold::interface::{Error, Stronghold};
use stronghold::location::Location;
use stronghold::secure::{ProcError, ProcResult, Procedure, VaultError};
use stronghold::vault::RecordError;

// The first HMAC-SHA-512 test vector of RFC 4231: key = 20 bytes of 0x0b, data = "Hi There".
const RFC4231_TAG: [u8; 64] = [
    0x87, 0xaa, 0x7c, 0xde, 0xa5, 0xef, 0x61, 0x9d, 0x4f, 0xf0, 0xb4, 0x24, 0x1a, 0x1d, 0x6c, 0xb0,
    0x23, 0x79, 0xf4, 0xe2, 0xce, 0x4e, 0xc2, 0x78, 0x7a, 0xd0, 0xb3, 0x05, 0x45, 0xe1, 0x7c, 0xde,
    0xda, 0xa8, 0x33, 0xb7, 0xd6, 0xb8, 0xa7, 0x02, 0x03, 0x8b, 0x27, 0x4e, 0xae, 0xa3, 0xf4, 0xe4,
    0xbe, 0x9d, 0x91, 0x4e, 0xeb, 0x61, 0xf1, 0x70, 0x2e, 0x69, 0x6c, 0x20, 0x3a, 0x12, 0x68, 0x54,
];

fn hint(bytes: &[u8]) -> RecordHint {
    RecordHint::new(bytes).unwrap()
}

fn loc(vault: &[u8], record: &[u8]) -> Location {
    Location::generic(vault.to_vec(), record.to_vec())
}

#[test]
fn hmac_procedure_matches_known_vector() {
    let mut stronghold = Stronghold::init_stronghold_system(b"a".to_vec(), vec![]).unwrap();
    stronghold.write_to_vault(loc(b"keys", b"mac"), vec![0x0b; 20], hint(b"mac key"), vec![]).unwrap();
    let result = stronghold
        .runtime_exec(Procedure::Hmac { key: loc(b"keys", b"mac"), msg: b"Hi There".to_vec() });
    assert_eq!(result, Ok(ProcResult::Hmac(RFC4231_TAG.to_vec())));
}

#[test]
fn hmac_procedure_needs_a_readable_secret() {
    let mut stronghold = Stronghold::init_stronghold_system(b"a".to_vec(), vec![]).unwrap();
    let request = Procedure::Hmac { key: loc(b"keys", b"mac"), msg: b"m".to_vec() };
    assert_eq!(
        stronghold.runtime_exec(request.clone()),
        Ok(ProcResult::Error(ProcError::SecretNotFound))
    );
    stronghold.write_to_vault(loc(b"keys", b"mac"), vec![1; 20], hint(b""), vec![]).unwrap();
    stronghold.delete_data(loc(b"keys", b"mac"), false).unwrap();
    assert_eq!(
        stronghold.runtime_exec(request),
        Ok(ProcResult::Error(ProcError::SecretNotFound))
    );
}

#[test]
fn generate_procedure_stores_a_secret_of_the_size_asked_for() {
    let mut stronghold = Stronghold::init_stronghold_system(b"a".to_vec(), vec![]).unwrap();
    let output = loc(b"seeds", b"one");
    let result = stronghold.runtime_exec(Procedure::Generate {
        output: output.clone(),
        hint: hint(b"seed"),
        size_bytes: 64,
    });
    assert_eq!(result, Ok(ProcResult::Generate));
    let secret = stronghold.read_secret(vec![], output.clone()).unwrap().unwrap();
    assert_eq!(secret.len(), 64);
    assert_ne!(secret, vec![0u8; 64]);
    assert_eq!(stronghold.list_hints_and_ids(b"seeds".to_vec()).unwrap()[0].1, hint(b"seed"));

    let other = loc(b"seeds", b"two");
    stronghold
        .runtime_exec(Procedure::Generate { output: other.clone(), hint: hint(b""), size_bytes: 64 })
        .unwrap();
    assert_ne!(stronghold.read_secret(vec![], other).unwrap().unwrap(), secret);
}

#[test]
fn generate_procedure_takes_small_and_large_sizes() {
    let mut stronghold = Stronghold::init_stronghold_system(b"a".to_vec(), vec![]).unwrap();
    for size in [0usize, 1, 4096, 4097, 100_000] {
        let output = loc(b"seeds", &size.to_le_bytes());
        assert_eq!(
            stronghold.runtime_exec(Procedure::Generate {
                output: output.clone(),
                hint: hint(b""),
                size_bytes: size
            }),
            Ok(ProcResult::Generate)
        );
        assert_eq!(stronghold.read_secret(vec![], output).unwrap().unwrap().len(), size);
    }
}

#[test]
fn generate_procedure_fails_where_there_is_no_memory() {
    let mut stronghold = Stronghold::init_stronghold_system(b"a".to_vec(), vec![]).unwrap();
    for size in [usize::MAX, usize::MAX / 2 + 1] {
        assert_eq!(
            stronghold.runtime_exec(Procedure::Generate {
                output: loc(b"seeds", b"one"),
                hint: hint(b""),
                size_bytes: size
            }),
            Ok(ProcResult::Error(ProcError::Memory))
        );
    }
    assert_eq!(stronghold.vault_exists(b"seeds".to_vec()), Ok(false));
}

#[test]
fn generate_procedure_does_not_overwrite_a_revoked_record() {
    let mut stronghold = Stronghold::init_stronghold_system(b"a".to_vec(), vec![]).unwrap();
    let output = loc(b"seeds", b"one");
    stronghold.write_to_vault(output.clone(), b"old".to_vec(), hint(b""), vec![]).unwrap();
    stronghold.delete_data(output.clone(), false).unwrap();
    assert_eq!(
        stronghold.runtime_exec(Procedure::Generate { output, hint: hint(b""), size_bytes: 8 }),
        Ok(ProcResult::Error(ProcError::Vault(VaultError::Record(RecordError::Revoked))))
    );
}

#[test]
fn procedures_need_a_target() {
    let mut stronghold = Stronghold::init_stronghold_system(b"a".to_vec(), vec![]).unwrap();
    stronghold.kill_stronghold(b"a".to_vec(), true).unwrap();
    assert_eq!(
        stronghold.runtime_exec(Procedure::Hmac { key: loc(b"k", b"m"), msg: vec![] }),
        Err(Error::ActorNotSpawned)
    );
}
