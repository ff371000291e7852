use rvm::artifact::{blob_name, key_of_blob, module_hash_hex};
use rvm::registry::{InstancePool, Registry, MAX_INSTANCES};
use rvm::service::{
    deploy_body_admitted, deploy_module, invoke_module, invoke_outcome, recover_entry,
    AwaitedAnswer, MAX_DEPLOY_BODY_BYTES,
};
use rvm::status::{deploy_error_status, invoke_error_status, DeployError, InvokeError};

#[test]
fn deploy_then_invoke_resolves() {
    let mut reg = Registry::new();
    let bytes = b"module bytes".to_vec();
    let r = deploy_module(&mut reg, b"echo".to_vec(), &bytes, Some(7), true);
    assert!(r.is_ok());
    assert_eq!(invoke_module(&reg, &b"echo".to_vec()), Ok(7));
}

#[test]
fn bare_invoke_resolves_after_deploy() {
    let mut reg = Registry::new();
    let bytes = b"module bytes".to_vec();
    deploy_module(&mut reg, b"key".to_vec(), &bytes, Some(9), true).unwrap();
    // An invoke of `/key` (no trailing slash) selects the first path
    // segment and resolves to the deployed worker.
    let (key, forward) = rvm::routing::route_request(&b"/key".to_vec());
    assert_eq!(rvm::routing::forwarded_target(&forward), b"/".to_vec());
    assert_eq!(invoke_module(&reg, &key), Ok(9));
}

#[test]
fn missing_key_is_not_found() {
    let reg = Registry::new();
    let r = invoke_module(&reg, &b"missing".to_vec());
    assert_eq!(r, Err(InvokeError::UnknownKey));
    assert_eq!(invoke_error_status(&InvokeError::UnknownKey), 404);
}

#[test]
fn redeploy_replaces_worker() {
    let mut reg = Registry::new();
    let first = b"first build".to_vec();
    let second = b"second build".to_vec();
    let d1 = deploy_module(&mut reg, b"a".to_vec(), &first, Some(1), true).unwrap();
    let d2 = deploy_module(&mut reg, b"a".to_vec(), &second, Some(2), true).unwrap();
    assert_ne!(d1.hash, d2.hash);
    assert_eq!(d1.replaced, None);
    // The prior worker is handed back so its inbox sender can be dropped.
    assert_eq!(d2.replaced, Some(1));
    assert_eq!(invoke_module(&reg, &b"a".to_vec()), Ok(2));
}

#[test]
fn failed_deploy_leaves_registry_unchanged() {
    let mut reg = Registry::new();
    let good = b"good".to_vec();
    deploy_module(&mut reg, b"ok".to_vec(), &good, Some(1), true).unwrap();

    let bad = b"malformed".to_vec();
    let r = deploy_module(&mut reg, b"broken".to_vec(), &bad, None, true);
    assert_eq!(r.unwrap_err(), DeployError::CompileFailed);
    assert_eq!(deploy_error_status(&DeployError::CompileFailed), 500);

    assert_eq!(invoke_module(&reg, &b"ok".to_vec()), Ok(1));
    assert_eq!(invoke_module(&reg, &b"broken".to_vec()), Err(InvokeError::UnknownKey));
}

#[test]
fn failed_persist_leaves_registry_unchanged() {
    let mut reg = Registry::new();
    let bytes = b"bytes".to_vec();
    let r = deploy_module(&mut reg, b"k".to_vec(), &bytes, Some(3), false);
    assert_eq!(r.unwrap_err(), DeployError::StoreFailed);
    assert_eq!(deploy_error_status(&DeployError::StoreFailed), 500);
    assert_eq!(invoke_module(&reg, &b"k".to_vec()), Err(InvokeError::UnknownKey));
}

#[test]
fn deploy_hash_matches_blake3() {
    let mut reg = Registry::new();
    let bytes = b"some artifact".to_vec();
    let deployed = deploy_module(&mut reg, b"k".to_vec(), &bytes, Some(1), true).unwrap();
    let expected = blake3::hash(b"some artifact").to_hex();
    assert_eq!(deployed.hash, expected.as_bytes().to_vec());
}

#[test]
fn hash_of_empty_artifact() {
    let bytes = Vec::new();
    let hash = module_hash_hex(&bytes);
    assert_eq!(
        hash,
        b"af1349b9f5f9a1a6a0404dea36dcc9499bcb25c9adc112b7cc9a93cae41f3262".to_vec()
    );
}

#[test]
fn hash_is_deterministic() {
    let a = b"identical bytes".to_vec();
    let b = b"identical bytes".to_vec();
    assert_eq!(module_hash_hex(&a), module_hash_hex(&b));
}

#[test]
fn worker_gone_and_aborted_statuses() {
    assert_eq!(invoke_outcome(false, &AwaitedAnswer::Response), Err(InvokeError::WorkerGone));
    assert_eq!(invoke_outcome(true, &AwaitedAnswer::Response), Ok(()));
    assert_eq!(invoke_outcome(true, &AwaitedAnswer::GuestError), Err(InvokeError::GuestFailure));
    assert_eq!(invoke_outcome(true, &AwaitedAnswer::Dropped), Err(InvokeError::WorkerAborted));
    assert_eq!(invoke_error_status(&InvokeError::WorkerGone), 503);
    assert_eq!(invoke_error_status(&InvokeError::WorkerAborted), 503);
    assert_eq!(invoke_error_status(&InvokeError::GuestFailure), 500);
    assert_eq!(invoke_error_status(&InvokeError::MalformedUri), 400);
}

#[test]
fn pool_caps_at_one_hundred() {
    let mut pool = InstancePool::new();
    for _ in 0..MAX_INSTANCES {
        assert!(pool.try_acquire());
    }
    assert!(!pool.try_acquire());
    pool.release();
    assert!(pool.try_acquire());
}

#[test]
fn overflowing_deploy_is_rejected_as_failed_spawn() {
    let mut pool = InstancePool::new();
    for _ in 0..MAX_INSTANCES {
        assert!(pool.try_acquire());
    }
    let mut reg = Registry::new();
    let bytes = b"one more".to_vec();
    let spawned = if pool.try_acquire() { Some(101) } else { None };
    let r = deploy_module(&mut reg, b"extra".to_vec(), &bytes, spawned, true);
    assert_eq!(r.unwrap_err(), DeployError::CompileFailed);
    assert_eq!(invoke_module(&reg, &b"extra".to_vec()), Err(InvokeError::UnknownKey));
}

#[test]
fn body_limit_boundary() {
    assert!(deploy_body_admitted(MAX_DEPLOY_BODY_BYTES));
    assert!(deploy_body_admitted(256 * 1024 * 1024));
    assert!(!deploy_body_admitted(256 * 1024 * 1024 + 1));
}

#[test]
fn blob_naming_round_trip() {
    assert_eq!(blob_name(&b"b".to_vec()), b"b.wasm".to_vec());
    assert_eq!(key_of_blob(&b"b.wasm".to_vec()), b"b".to_vec());
    assert_eq!(key_of_blob(&blob_name(&b"echo".to_vec())), b"echo".to_vec());
}

#[test]
fn key_ending_in_suffix_round_trips() {
    // A tenant may pick a key that itself ends in `.wasm`; only the suffix
    // that persisting appended is stripped on recovery.
    assert_eq!(blob_name(&b"x.wasm".to_vec()), b"x.wasm.wasm".to_vec());
    assert_eq!(key_of_blob(&b"x.wasm.wasm".to_vec()), b"x.wasm".to_vec());
    assert_eq!(key_of_blob(&blob_name(&b"x.wasm".to_vec())), b"x.wasm".to_vec());
}

#[test]
fn recovery_rehydrates_file_entries() {
    let mut reg = Registry::new();
    let entries: Vec<(Vec<u8>, bool)> =
        vec![(b"b.wasm".to_vec(), true), (b"subdir".to_vec(), false), (b"echo.wasm".to_vec(), true)];
    let mut next_worker = 1u64;
    for (name, is_file) in &entries {
        if let Some(key) = recover_entry(name, *is_file) {
            let _prior = reg.register(key, next_worker);
            next_worker += 1;
        }
    }
    assert_eq!(invoke_module(&reg, &b"b".to_vec()), Ok(1));
    assert_eq!(invoke_module(&reg, &b"echo".to_vec()), Ok(2));
    assert_eq!(invoke_module(&reg, &b"subdir".to_vec()), Err(InvokeError::UnknownKey));
}
