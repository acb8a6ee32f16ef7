use std::time::Duration;

use kubegraph::dash::binding::{
    binding_advance, binding_begin, Action, BindingStep, ModelStorageBindingState,
    ModelStorageBindingStorageKind, ModelStorageBindingStorageKindClonedSpec,
    ModelStorageBindingStorageKindOwnedSpec, ModelStorageBindingSyncPolicy, Outcome,
};
use kubegraph::dash::claim::{
    claim_advance, claim_begin, has_finalizer, ClaimFacts, ClaimStep, ModelClaimState,
};
use kubegraph::dash::storage::{
    ModelStorageDatabaseSpec, ModelStorageKind, ModelStorageKindSpec, ModelStorageKubernetesSpec,
    ModelStorageObjectSpec, ModelStorageState,
};
use kubegraph::pipe::storage::{is_name, StorageError};
use kubegraph::pipe::{
    FunctionContext, MetadataStorageArgs, MetadataStorageType, StorageArgs, StorageSet,
    StorageType,
};

#[test]
fn storage_kinds_answer_for_themselves() {
    let borrowed_db = ModelStorageKindSpec::Database(ModelStorageDatabaseSpec {
        url: Some("postgres://db:5432".to_string()),
    });
    let owned_db = ModelStorageKindSpec::Database(ModelStorageDatabaseSpec { url: None });
    let cluster = ModelStorageKindSpec::Kubernetes(ModelStorageKubernetesSpec {});
    let borrowed = ModelStorageKindSpec::ObjectStorage(ModelStorageObjectSpec::Borrowed {
        endpoint: "http://s3.example".to_string(),
    });
    let owned = ModelStorageKindSpec::ObjectStorage(ModelStorageObjectSpec::Owned {
        service: "minio".to_string(),
    });
    assert_eq!(
        borrowed_db.endpoint("ns"),
        Some("postgres://db:5432".to_string())
    );
    assert_eq!(owned_db.endpoint("ns"), None);
    assert_eq!(cluster.endpoint("ns"), None);
    assert_eq!(borrowed.endpoint("ns"), Some("http://s3.example".to_string()));
    assert_eq!(owned.endpoint("ns"), Some("http://minio.ns.svc".to_string()));
    assert!(!borrowed_db.is_unique());
    assert!(cluster.is_unique());
    assert!(!borrowed.is_unique());
    assert!(owned.is_unique());
    assert_eq!(owned_db.to_kind(), ModelStorageKind::Database);
    assert_eq!(cluster.to_kind(), ModelStorageKind::Kubernetes);
    assert_eq!(owned.to_kind(), ModelStorageKind::ObjectStorage);
    assert_eq!(ModelStorageState::default(), ModelStorageState::Pending);
}

#[test]
fn bindings_know_their_source_and_target() {
    let cloned = ModelStorageBindingStorageKind::Cloned(ModelStorageBindingStorageKindClonedSpec {
        source: "a".to_string(),
        target: "b".to_string(),
        sync_policy: ModelStorageBindingSyncPolicy::OnDelete,
    });
    let owned = ModelStorageBindingStorageKind::Owned(ModelStorageBindingStorageKindOwnedSpec {
        target: "c".to_string(),
    });
    assert_eq!(
        cloned.source(),
        Some((&"a".to_string(), ModelStorageBindingSyncPolicy::OnDelete))
    );
    assert_eq!(cloned.target(), "b");
    assert_eq!(owned.source(), None);
    assert_eq!(owned.target(), "c");
    assert_eq!(
        ModelStorageBindingSyncPolicy::default(),
        ModelStorageBindingSyncPolicy::Never
    );
    assert_eq!(
        ModelStorageBindingState::default(),
        ModelStorageBindingState::Pending
    );
}

#[test]
fn a_binding_is_validated_then_marked() {
    let again = Some(BindingStep::Finish(Action::Requeue(30)));
    assert_eq!(binding_begin(None), BindingStep::Validate);
    assert_eq!(
        binding_begin(Some(ModelStorageBindingState::Pending)),
        BindingStep::Validate
    );
    assert_eq!(
        binding_begin(Some(ModelStorageBindingState::Ready)),
        BindingStep::Finish(Action::AwaitChange)
    );
    assert_eq!(
        binding_advance(BindingStep::Validate, Outcome::Done),
        Some(BindingStep::MarkReady)
    );
    assert_eq!(binding_advance(BindingStep::Validate, Outcome::Failed), again);
    assert_eq!(binding_advance(BindingStep::MarkReady, Outcome::Done), again);
    assert_eq!(binding_advance(BindingStep::MarkReady, Outcome::Failed), again);
    assert_eq!(
        binding_advance(BindingStep::Finish(Action::AwaitChange), Outcome::Done),
        None
    );
}

#[test]
fn a_claim_goes_through_its_states() {
    let again = Some(ClaimStep::Finish(Action::Requeue(30)));
    let facts = |deletion_requested, state, has_finalizer| ClaimFacts {
        deletion_requested,
        state,
        has_finalizer,
    };
    assert_eq!(claim_begin(facts(true, None, true)), ClaimStep::MarkDeleting);
    assert_eq!(
        claim_begin(facts(true, Some(ModelClaimState::Ready), false)),
        ClaimStep::MarkDeleting
    );
    assert_eq!(
        claim_begin(facts(true, Some(ModelClaimState::Deleting), false)),
        ClaimStep::AddFinalizer
    );
    assert_eq!(
        claim_begin(facts(true, Some(ModelClaimState::Deleting), true)),
        ClaimStep::Delete
    );
    assert_eq!(claim_begin(facts(false, None, false)), ClaimStep::AddFinalizer);
    assert_eq!(claim_begin(facts(false, None, true)), ClaimStep::Validate);
    assert_eq!(
        claim_begin(facts(false, Some(ModelClaimState::Replacing), true)),
        ClaimStep::Validate
    );
    assert_eq!(
        claim_begin(facts(false, Some(ModelClaimState::Ready), true)),
        ClaimStep::Finish(Action::AwaitChange)
    );
    assert_eq!(
        claim_begin(facts(false, Some(ModelClaimState::Deleting), true)),
        ClaimStep::Delete
    );
    assert_eq!(
        claim_advance(ClaimStep::Validate, Outcome::Done),
        Some(ClaimStep::MarkReady)
    );
    assert_eq!(claim_advance(ClaimStep::Validate, Outcome::Failed), again);
    assert_eq!(
        claim_advance(ClaimStep::Delete, Outcome::Done),
        Some(ClaimStep::RemoveFinalizer)
    );
    assert_eq!(claim_advance(ClaimStep::Delete, Outcome::Failed), again);
    assert_eq!(claim_advance(ClaimStep::MarkDeleting, Outcome::Done), again);
    assert_eq!(claim_advance(ClaimStep::MarkReady, Outcome::Failed), again);
    assert_eq!(claim_advance(ClaimStep::AddFinalizer, Outcome::Done), None);
    assert_eq!(claim_advance(ClaimStep::RemoveFinalizer, Outcome::Done), None);
    assert_eq!(ModelClaimState::default(), ModelClaimState::Pending);
    let finalizers = vec!["other".to_string(), "mine".to_string()];
    assert!(has_finalizer(&finalizers, "mine"));
    assert!(!has_finalizer(&finalizers, "min"));
    assert!(!has_finalizer(&vec![], "mine"));
}

#[test]
fn flush_of_zero_is_never() {
    assert_eq!(StorageArgs::parse_flush_ms(0), None);
    assert_eq!(StorageArgs::parse_flush_ms(1), Some(Duration::from_millis(1)));
    assert_eq!(
        StorageArgs::parse_flush_ms(10_000),
        Some(Duration::from_secs(10))
    );
    assert_eq!(StorageArgs::new(0, None, None, None).flush(), None);
    assert_eq!(
        StorageArgs::new(250, None, None, None).flush(),
        Some(Duration::from_millis(250))
    );
}

#[test]
fn storages_follow_the_arguments() {
    let lake = || MetadataStorageArgs::<String>::new(MetadataStorageType::default());
    assert_eq!(lake().default_storage(), MetadataStorageType::LakeHouse);
    let mut args = StorageArgs::new(500, None, None, None);
    assert_eq!(
        StorageSet::try_new(&args, None, lake(), None).unwrap_err(),
        StorageError::MissingPipeName
    );
    let set = StorageSet::try_new(&args, None, lake(), Some("host".to_string())).unwrap();
    assert_eq!(set.get_default(), StorageType::Passthrough);
    assert_eq!(set.get_default(), StorageType::TEMPORARY);
    assert_eq!(set.get_default_metadata(), MetadataStorageType::LakeHouse);
    assert!(!set.stores_metadata());
    assert_eq!(set.metadata_flush(), None);
    assert_eq!(set.pipe_name(), "host");

    args.with_persistence(true);
    args.with_persistence_metadata(true);
    let named = StorageArgs::new(500, Some(true), Some(true), Some("pipe".to_string()));
    for a in [&args, &named] {
        let set = StorageSet::try_new(a, None, lake(), Some("host".to_string())).unwrap();
        assert_eq!(set.get_default(), StorageType::S3);
        assert_eq!(set.get_default(), StorageType::PERSISTENT);
        assert!(set.stores_metadata());
        assert_eq!(set.metadata_flush(), Some(Duration::from_millis(500)));
    }
    let set = StorageSet::try_new(&named, None, lake(), Some("host".to_string())).unwrap();
    assert_eq!(set.pipe_name(), "pipe");
    let set = StorageSet::try_new(&named, None, lake(), None).unwrap();
    assert_eq!(set.pipe_name(), "pipe");
}

#[test]
fn a_pipe_is_named_like_a_host() {
    for good in ["a", "0", "pipe", "pipe-1", "a-b-c", "0a1b"] {
        assert!(is_name(good), "{good:?}");
    }
    for bad in ["", "-", "-a", "a-", "Pipe", "a_b", "a.b", "a b", "é", "pipe-é", "a\n"] {
        assert!(!is_name(bad), "{bad:?}");
    }
    let lake = || MetadataStorageArgs::<String>::new(MetadataStorageType::LakeHouse);
    let args = StorageArgs::new(500, None, None, None);
    assert_eq!(
        StorageSet::try_new(&args, None, lake(), Some("My.Host".to_string())).unwrap_err(),
        StorageError::MissingPipeName
    );
    let named = StorageArgs::new(500, None, None, Some("Any Name".to_string()));
    let set = StorageSet::try_new(&named, None, lake(), Some("My.Host".to_string())).unwrap();
    assert_eq!(set.pipe_name(), "Any Name");
}

#[test]
fn a_function_is_forbidden_metadata_where_none_is_stored() {
    let lake = || MetadataStorageArgs::<String>::new(MetadataStorageType::LakeHouse);
    let off = StorageArgs::new(500, None, Some(false), Some("pipe".to_string()));
    let on = StorageArgs::new(500, None, Some(true), Some("pipe".to_string()));

    let mut ctx = FunctionContext::default();
    let set = StorageSet::try_new(&off, Some(&mut ctx), lake(), None).unwrap();
    assert!(ctx.is_disabled_store_metadata());
    assert_eq!(set.metadata_flush(), None);

    let mut ctx = FunctionContext::default();
    let set = StorageSet::try_new(&on, Some(&mut ctx), lake(), None).unwrap();
    assert!(!ctx.is_disabled_store_metadata());
    assert_eq!(set.metadata_flush(), Some(Duration::from_millis(500)));

    let mut ctx = FunctionContext::default();
    ctx.disable_store_metadata();
    let set = StorageSet::try_new(&on, Some(&mut ctx), lake(), None).unwrap();
    assert!(ctx.is_disabled_store_metadata());
    assert_eq!(set.metadata_flush(), None);

    let unnamed = StorageArgs::new(500, None, None, None);
    let mut ctx = FunctionContext::default();
    assert_eq!(
        StorageSet::try_new(&unnamed, Some(&mut ctx), lake(), None).unwrap_err(),
        StorageError::MissingPipeName
    );
    assert!(ctx.is_disabled_store_metadata());
}
