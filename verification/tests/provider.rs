use std::sync::Arc;

use ullage::error::{PartialFailure, ProviderError, ProviderErrorKind, ProviderResult, QueryOutcome};
use ullage::provider::{
    Capability, Lookup, Produced, ProviderDescriptor, ProviderId, ProviderRegistry, RegistryError,
};
use ullage::usage::{SubscriptionUsage, Timestamp};

#[derive(Debug)]
struct StubProvider;

type Factory = fn(&str) -> ProviderResult<Produced<Arc<StubProvider>>>;

fn descriptor(id: &str) -> ProviderDescriptor {
    ProviderDescriptor {
        id: ProviderId::new(id),
        display_name: "Stub".into(),
        capabilities: vec![Capability::UsageQuery],
    }
}

fn make(_: &str) -> ProviderResult<Produced<Arc<StubProvider>>> {
    Ok(Produced {
        id: ProviderId::new("stub"),
        provider: Arc::new(StubProvider),
    })
}

fn make_another(_: &str) -> ProviderResult<Produced<Arc<StubProvider>>> {
    Ok(Produced {
        id: ProviderId::new("another"),
        provider: Arc::new(StubProvider),
    })
}

fn fail(_: &str) -> ProviderResult<Produced<Arc<StubProvider>>> {
    Err(ProviderError::Network {
        message: "secret".into(),
    })
}

fn registry() -> ProviderRegistry<Arc<StubProvider>, Factory> {
    ProviderRegistry::new()
}

#[test]
fn rejects_duplicate_provider_ids() {
    let mut registry = registry();
    registry.register(descriptor("stub"), StubProvider).unwrap();

    assert_eq!(
        registry
            .register(descriptor("stub"), StubProvider)
            .unwrap_err(),
        RegistryError::Duplicate(ProviderId::new("stub"))
    );
    assert_eq!(registry.descriptors().len(), 1);
}

#[test]
fn distinguishes_missing_providers() {
    let mut registry = registry();
    let missing = ProviderId::new("missing");

    assert!(matches!(
        registry.get(&missing),
        Err(RegistryError::NotFound(id)) if id == missing
    ));
}

#[test]
fn object_safe_adapter_preserves_partial_failures() {
    let outcome = QueryOutcome::Partial {
        data: SubscriptionUsage {
            provider: ProviderId::new("stub"),
            account_label: None,
            plan: None,
            subscription_expires_at: None,
            observed_at: Timestamp {
                seconds: 0,
                nanos: 0,
            },
            windows: Vec::new(),
        },
        failures: vec![PartialFailure {
            scope: "weekly".into(),
            message: "temporarily unavailable".into(),
        }],
    };
    let outcome: ProviderResult<QueryOutcome<SubscriptionUsage>> = outcome.try_map(Ok);

    assert!(matches!(
        outcome.unwrap(),
        QueryOutcome::Partial { data, failures }
            if data.provider == ProviderId::new("stub")
                && failures[0].scope == "weekly"
    ));
}

#[test]
fn factory_caches_distinct_provider_instances_per_account() {
    let mut registry = registry();
    registry
        .register_factory(descriptor("stub"), make as Factory)
        .unwrap();
    let id = ProviderId::new("stub");
    let first = registry.get_for_account(&id, "account-a").unwrap();
    let repeated = registry.get_for_account(&id, "account-a").unwrap();
    let second = registry.get_for_account(&id, "account-b").unwrap();

    assert!(Arc::ptr_eq(&first, &repeated));
    assert!(!Arc::ptr_eq(&first, &second));
}

#[test]
fn a_singleton_serves_every_account() {
    let mut registry = registry();
    registry.register(descriptor("stub"), StubProvider).unwrap();
    let id = ProviderId::new("stub");
    let first = registry.get_for_account(&id, "account-a").unwrap();
    let second = registry.get(&id).unwrap();
    assert!(Arc::ptr_eq(&first, &second));
    assert!(registry.contains(&id));
    assert!(!registry.contains(&ProviderId::new("other")));
}

#[test]
fn descriptors_stand_in_the_order_of_their_ids() {
    let mut registry = registry();
    for id in ["grok", "chatgpt", "cursor"] {
        registry.register(descriptor(id), StubProvider).unwrap();
    }
    let ids: Vec<String> = registry
        .descriptors()
        .iter()
        .map(|descriptor| descriptor.id.as_str().to_owned())
        .collect();
    assert_eq!(ids, ["chatgpt", "cursor", "grok"]);
}

#[test]
fn unusable_ids_are_refused() {
    let mut registry = registry();
    for id in ["", "a/b\n", "\u{202e}x"] {
        assert_eq!(
            registry
                .register(descriptor(id), StubProvider)
                .unwrap_err(),
            RegistryError::InvalidId(ProviderId::new(id)),
            "{id:?}"
        );
    }
    assert!(registry.descriptors().is_empty());
}

#[test]
fn a_factory_that_fails_or_makes_another_provider_is_told_of() {
    let mut registry = registry();
    registry
        .register_factory(descriptor("stub"), fail as Factory)
        .unwrap();
    let id = ProviderId::new("stub");
    assert_eq!(
        registry.get(&id).unwrap_err(),
        RegistryError::InstanceFailed {
            provider: id.clone(),
            kind: ProviderErrorKind::Network,
        }
    );
    let mut other = ProviderRegistry::new();
    other
        .register_factory(descriptor("stub"), make_another as Factory)
        .unwrap();
    assert_eq!(
        other.get(&id).unwrap_err(),
        RegistryError::DescriptorMismatch {
            registered: id,
            actual: ProviderId::new("another"),
        }
    );
}

#[test]
fn a_conversion_that_fails_fails_the_outcome() {
    let complete: QueryOutcome<u32> = QueryOutcome::Complete { data: 7 };
    let doubled: Result<QueryOutcome<u32>, ()> = complete.try_map(|value| Ok(value * 2));
    assert!(matches!(doubled, Ok(QueryOutcome::Complete { data: 14 })));
    let complete: QueryOutcome<u32> = QueryOutcome::Complete { data: 7 };
    let failed: Result<QueryOutcome<u32>, &str> = complete.try_map(|_| Err("no"));
    assert_eq!(failed.unwrap_err(), "no");
}

#[test]
fn the_first_published_instance_stays() {
    let mut registry = registry();
    registry
        .register_factory(descriptor("stub"), make as Factory)
        .unwrap();
    let id = ProviderId::new("stub");
    let first = Arc::new(StubProvider);
    let second = Arc::new(StubProvider);

    let handed = registry
        .publish(
            &id,
            "account",
            Ok(Produced {
                id: ProviderId::new("stub"),
                provider: first.clone(),
            }),
        )
        .unwrap();
    let raced = registry
        .publish(
            &id,
            "account",
            Ok(Produced {
                id: ProviderId::new("stub"),
                provider: second.clone(),
            }),
        )
        .unwrap();

    assert!(Arc::ptr_eq(&handed, &first));
    assert!(Arc::ptr_eq(&raced, &first));
    assert!(Arc::ptr_eq(
        &registry.get_for_account(&id, "account").unwrap(),
        &first
    ));
}

#[test]
fn a_lookup_tells_what_makes_a_missing_instance() {
    let mut registry = registry();
    registry
        .register_factory(descriptor("stub"), make as Factory)
        .unwrap();
    let id = ProviderId::new("stub");
    assert!(matches!(
        registry.lookup(&ProviderId::new("other"), "account"),
        Lookup::NotFound
    ));
    let Lookup::NeedsInstance(factory) = registry.lookup(&id, "account") else {
        panic!("nothing was made yet");
    };
    let produced = factory("account");
    let handed = registry.publish(&id, "account", produced).unwrap();
    let Lookup::Found(found) = registry.lookup(&id, "account") else {
        panic!("the instance was published");
    };
    assert!(Arc::ptr_eq(&handed, &found));
}

#[test]
fn refusals_are_described() {
    let id = || ProviderId::new("stub");
    let described = [
        (
            RegistryError::Duplicate(id()),
            "provider is already registered: stub",
        ),
        (
            RegistryError::NotFound(id()),
            "provider is not registered: stub",
        ),
        (
            RegistryError::InvalidId(ProviderId::new("secret\n")),
            "provider identifier is not usable",
        ),
        (
            RegistryError::DescriptorMismatch {
                registered: id(),
                actual: ProviderId::new("another"),
            },
            "provider factory returned an instance for another instead of stub",
        ),
        (
            RegistryError::InstanceUnavailable(id()),
            "provider account instance could not be initialized: stub",
        ),
    ];
    for (error, text) in described {
        assert_eq!(error.message(), text);
    }
    for kind in [
        ProviderErrorKind::AuthenticationInvalid,
        ProviderErrorKind::RateLimited,
        ProviderErrorKind::Network,
        ProviderErrorKind::ProtocolIncompatible,
        ProviderErrorKind::UnsupportedCapability,
    ] {
        let error = RegistryError::InstanceFailed {
            provider: id(),
            kind,
        };
        assert_eq!(
            error.message(),
            format!("provider account instance could not be initialized: stub ({kind:?})")
        );
    }
}
