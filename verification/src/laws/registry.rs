//! What the registry of providers keeps, and what providers' failures tell.

use vstd::prelude::*;

use crate::error;
use crate::error::{ProviderError, ProviderErrorKind, ProviderResult};
use crate::identity;
use crate::provider;
use crate::provider::{Entry, Produced, ProviderId, Registration, RegistryError};
use crate::usage;
use crate::usage::SubscriptionUsage;

verus! {

/// A provider that is registered is found from then on, and every other entry stays;
/// an id that is empty or obscured, or registered already, is refused, and the
/// registry stays as it is.
pub proof fn registered_providers_are_found<P, F>(
    before: Seq<Entry<P, F>>,
    entry: Entry<P, F>,
    result: Result<(), RegistryError>,
    after: Seq<Entry<P, F>>,
)
    requires
        provider::registers(before, entry, result, after),
    ensures
        entry.descriptor.id@.len() == 0 || identity::unsafe_text(entry.descriptor.id@) ==> result
            == Err::<(), RegistryError>(RegistryError::InvalidId(entry.descriptor.id)),
        entry.descriptor.id@.len() > 0 && !identity::unsafe_text(entry.descriptor.id@) ==> (result
            is Err <==> exists|i: int|
            0 <= i < before.len() && (#[trigger] before[i]).descriptor.id@
                == entry.descriptor.id@),
        result is Err && entry.descriptor.id@.len() > 0 && !identity::unsafe_text(
            entry.descriptor.id@,
        ) ==> result == Err::<(), RegistryError>(RegistryError::Duplicate(entry.descriptor.id)),
        result is Err ==> after == before,
        result is Ok ==> {
            &&& after.len() == before.len() + 1
            &&& after.contains(entry)
            &&& forall|i: int| 0 <= i < before.len() ==> after.contains(#[trigger] before[i])
            &&& forall|i: int|
                0 <= i < after.len() ==> #[trigger] after[i] == entry || before.contains(after[i])
        },
{
    let id = entry.descriptor.id;
    if provider::has_entry(before, id@) {
        let place = choose|place: int| provider::entry_at(before, id@, place);
        assert(before[place].descriptor.id@ == id@);
    } else {
        assert forall|i: int| 0 <= i < before.len() implies (#[trigger] before[i]).descriptor.id@
            != id@ by {
            if before[i].descriptor.id@ == id@ {
                assert(provider::entry_at(before, id@, i));
            }
        }
    }
    if result is Ok {
        let place = choose|place: int|
            0 <= place <= before.len() && after == #[trigger] before.insert(place, entry);
        assert(after[place] == entry);
        assert forall|i: int| 0 <= i < before.len() implies after.contains(#[trigger] before[i]) by {
            if i < place {
                assert(after[i] == before[i]);
            } else {
                assert(after[i + 1] == before[i]);
            }
        }
        assert forall|i: int| 0 <= i < after.len() implies #[trigger] after[i] == entry
            || before.contains(after[i]) by {
            if i < place {
                assert(before[i] == after[i]);
            } else if i > place {
                assert(before[i - 1] == after[i]);
            }
        }
    }
}

/// The entry makes its providers as before: it is the same single one, or has the same
/// factory and every instance that it had.
pub open spec fn same_maker<P, F>(before: Entry<P, F>, after: Entry<P, F>) -> bool {
    match before.registration {
        Registration::Singleton(only) => after.registration == Registration::<P, F>::Singleton(
            only,
        ),
        Registration::Factory { factory, instances } => after.registration matches
            Registration::Factory { factory: same, instances: more } && same == factory
            && instances@.len() <= more@.len() && forall|i: int|
            0 <= i < instances@.len() ==> #[trigger] more@[i] == instances@[i],
    }
}

/// A failed instance is told by the kind of its failure, one of another provider by
/// both ids, and one for an id that is gone as not found; none of these changes the
/// registry. An instance that is published is handed out, and is kept for its
/// account alone.
pub proof fn published_instances_are_kept<P: Clone, F>(
    before: Seq<Entry<P, F>>,
    id: ProviderId,
    account: Seq<char>,
    produced: ProviderResult<Produced<P>>,
    result: Result<P, RegistryError>,
    after: Seq<Entry<P, F>>,
)
    requires
        provider::publishes(before, id, account, produced, result, after),
    ensures
        produced matches Err(error) ==> result == Err::<P, RegistryError>(
            RegistryError::InstanceFailed { provider: id, kind: error.category() },
        ),
        produced matches Ok(made) ==> (made.id@ != id@ ==> result == Err::<P, RegistryError>(
            RegistryError::DescriptorMismatch { registered: id, actual: made.id },
        )),
        produced matches Ok(made) ==> (made.id@ == id@ ==> (result is Ok <==> exists|i: int|
            0 <= i < before.len() && (#[trigger] before[i]).descriptor.id@ == id@)),
        produced matches Ok(made) ==> (made.id@ == id@ && result is Err ==> result == Err::<
            P,
            RegistryError,
        >(RegistryError::NotFound(id))),
        result is Err ==> after == before,
        after.len() == before.len(),
        forall|i: int|
            0 <= i < before.len() ==> (#[trigger] after[i]).descriptor == before[i].descriptor
                && same_maker(before[i], after[i]),
        result is Ok ==> exists|i: int|
            0 <= i < after.len() && (#[trigger] after[i]).descriptor.id@ == id@ && provider::serves(
                after[i],
                account,
            ),
{
    if let Ok(made) = produced {
        if made.id@ == id@ {
            if provider::has_entry(before, id@) {
                let found = choose|place: int| provider::entry_at(before, id@, place);
                assert(before[found].descriptor.id@ == id@);
                let place = choose|place: int|
                    {
                        &&& #[trigger] provider::entry_at(before, id@, place)
                        &&& if provider::serves(before[place], account) {
                            provider::hands_out(before[place], account, result->Ok_0) && after
                                == before
                        } else {
                            &&& cloned(made.provider, result->Ok_0)
                            &&& after.len() == before.len()
                            &&& provider::with_instance(
                                before[place],
                                account,
                                made.provider,
                                after[place],
                            )
                            &&& forall|i: int|
                                0 <= i < before.len() && i != place ==> #[trigger] after[i]
                                    == before[i]
                        }
                    };
                assert forall|i: int| 0 <= i < before.len() implies (
                #[trigger] after[i]).descriptor == before[i].descriptor && same_maker(
                    before[i],
                    after[i],
                ) by {
                    if i == place && !provider::serves(before[place], account) {
                        if let Registration::Factory { instances, .. } = before[place].registration {
                            if let Registration::Factory { instances: more, .. } =
                                after[place].registration {
                                assert forall|k: int|
                                    0 <= k < instances@.len() implies #[trigger] more@[k]
                                    == instances@[k] by {
                                    assert(more@.drop_last()[k] == more@[k]);
                                }
                            }
                        }
                    }
                }
                if !provider::serves(before[place], account) {
                    if let Registration::Factory { instances, .. } =
                        after[place].registration {
                        assert(provider::instance_at(
                            instances@,
                            account,
                            instances@.len() - 1,
                        ));
                    }
                }
                assert(after[place].descriptor.id@ == id@ && provider::serves(
                    after[place],
                    account,
                ));
            } else {
                assert forall|i: int| 0 <= i < before.len() implies (
                #[trigger] before[i]).descriptor.id@ != id@ by {
                    if before[i].descriptor.id@ == id@ {
                        assert(provider::entry_at(before, id@, i));
                    }
                }
            }
        }
    }
}

/// Ids are kept in the order of a dictionary, each once, and each usable; the account
/// that is meant where none is named is the active one.
pub proof fn ids_are_kept_in_order<P, F>(entries: Seq<Entry<P, F>>, left: int, right: int)
    requires
        provider::well_formed(entries),
        0 <= left < right < entries.len(),
    ensures
        crate::text::comes_before(entries[left].descriptor.id@, entries[right].descriptor.id@),
        entries[left].descriptor.id@.len() > 0,
        !identity::unsafe_text(entries[left].descriptor.id@),
        provider::DEFAULT_ACCOUNT_ID@ == "active"@,
{
}

/// What the registry's refusals are described as. An id that is not usable is not
/// repeated.
pub proof fn registry_refusals_are_described(error: RegistryError)
    ensures
        error.described() == match error {
            RegistryError::Duplicate(id) => "provider is already registered: "@ + id@,
            RegistryError::NotFound(id) => "provider is not registered: "@ + id@,
            RegistryError::InvalidId(_) => "provider identifier is not usable"@,
            RegistryError::DescriptorMismatch { registered, actual } => {
                "provider factory returned an instance for "@ + actual@ + " instead of "@
                    + registered@
            },
            RegistryError::InstanceUnavailable(id) => {
                "provider account instance could not be initialized: "@ + id@
            },
            RegistryError::InstanceFailed { provider, kind } => {
                "provider account instance could not be initialized: "@ + provider@ + " ("@ + (
                match kind {
                    ProviderErrorKind::AuthenticationInvalid => "AuthenticationInvalid"@,
                    ProviderErrorKind::RateLimited => "RateLimited"@,
                    ProviderErrorKind::Network => "Network"@,
                    ProviderErrorKind::ProtocolIncompatible => "ProtocolIncompatible"@,
                    ProviderErrorKind::UnsupportedCapability => "UnsupportedCapability"@,
                }) + ")"@
            },
        },
{
}

/// A provider's failure is of its own kind, and is described by its kind and by what
/// it carries; without what it carries, by its kind alone.
pub proof fn provider_failures_go_by_their_kind(failure: ProviderError, clean: ProviderError)
    ensures
        failure is AuthenticationInvalid <==> failure.category() is AuthenticationInvalid,
        failure is RateLimited <==> failure.category() is RateLimited,
        failure is Network <==> failure.category() is Network,
        failure is ProtocolIncompatible <==> failure.category() is ProtocolIncompatible,
        failure is UnsupportedCapability <==> failure.category() is UnsupportedCapability,
        failure.category_text() == match failure {
            ProviderError::AuthenticationInvalid { .. } => "provider authentication is invalid"@,
            ProviderError::RateLimited { .. } => "provider rate limited the request"@,
            ProviderError::Network { .. } => "provider network request failed"@,
            ProviderError::ProtocolIncompatible { .. } => {
                "provider protocol response is incompatible"@
            },
            ProviderError::UnsupportedCapability { .. } => "provider capability"@,
        },
        failure.described() == match failure {
            ProviderError::AuthenticationInvalid { message } => "authentication is invalid: "@
                + message@,
            ProviderError::RateLimited { message, .. } => "rate limited: "@ + message@,
            ProviderError::Network { message } => "network error: "@ + message@,
            ProviderError::ProtocolIncompatible { message } => "provider protocol is incompatible: "@
                + message@,
            ProviderError::UnsupportedCapability { capability } => "capability is not supported: "@
                + capability@,
        },
        failure.retry_delay() == (if failure is RateLimited {
            failure->retry_after_seconds
        } else {
            None
        }),
        failure.sanitizes_to(clean) <==> clean.category() == failure.category()
            && clean.carried_text() == failure.category_text() && clean.retry_delay()
            == failure.retry_delay(),
{
}

/// A message of a partial result is recognized as clean exactly when it is that of
/// some kind, or the one that older daemons send.
pub proof fn clean_messages_are_recognized(message: Seq<char>)
    ensures
        error::sanitized_text(message) <==> message == "provider reported partial data"@ || message
            == "provider authentication is invalid"@ || message
            == "provider rate limited the request"@ || message == "provider network request failed"@
            || message == "provider protocol response is incompatible"@ || message
            == "provider capability"@,
{
    assert(error::category_text(ProviderErrorKind::AuthenticationInvalid)
        == "provider authentication is invalid"@);
    assert(error::category_text(ProviderErrorKind::RateLimited)
        == "provider rate limited the request"@);
    assert(error::category_text(ProviderErrorKind::Network) == "provider network request failed"@);
    assert(error::category_text(ProviderErrorKind::ProtocolIncompatible)
        == "provider protocol response is incompatible"@);
    assert(error::category_text(ProviderErrorKind::UnsupportedCapability)
        == "provider capability"@);
    if error::sanitized_text(message) && message != "provider reported partial data"@ {
        let kind = choose|kind: ProviderErrorKind| message == #[trigger] error::category_text(kind);
        match kind {
            ProviderErrorKind::AuthenticationInvalid => {},
            ProviderErrorKind::RateLimited => {},
            ProviderErrorKind::Network => {},
            ProviderErrorKind::ProtocolIncompatible => {},
            ProviderErrorKind::UnsupportedCapability => {},
        }
    }
}

/// A copied report is the same in all that it tells.
pub proof fn copied_reports_tell_the_same(
    left: SubscriptionUsage,
    right: SubscriptionUsage,
    place: int,
)
    requires
        usage::same_report(left, right),
    ensures
        left.provider == right.provider,
        left.account_label == right.account_label,
        left.plan == right.plan,
        left.subscription_expires_at == right.subscription_expires_at,
        left.observed_at == right.observed_at,
        left.windows@.len() == right.windows@.len(),
        0 <= place < left.windows@.len() ==> left.windows@[place].window
            == right.windows@[place].window && left.windows@[place].resets_at
            == right.windows@[place].resets_at && left.windows@[place].measurements@
            == right.windows@[place].measurements@,
{
    if 0 <= place < left.windows@.len() {
        assert(usage::same_window(left.windows@[place], right.windows@[place]));
    }
}

/// A provider that is asked for is found or not by its id alone; one that serves the
/// account already is handed out and changes nothing; else one is made for that very
/// account, and published.
pub proof fn providers_are_found_or_made<
    P: Clone,
    F: Fn(&str) -> ProviderResult<Produced<P>>,
>(
    before: Seq<Entry<P, F>>,
    id: ProviderId,
    account: &str,
    result: Result<P, RegistryError>,
    after: Seq<Entry<P, F>>,
)
    requires
        provider::obtains(before, id, account, result, after),
    ensures
        !(exists|i: int| 0 <= i < before.len() && (#[trigger] before[i]).descriptor.id@ == id@)
            ==> result == Err::<P, RegistryError>(RegistryError::NotFound(id)) && after == before,
        (forall|i: int|
            0 <= i < before.len() && (#[trigger] before[i]).descriptor.id@ == id@
                ==> provider::serves(before[i], account@)) && (exists|i: int|
            0 <= i < before.len() && (#[trigger] before[i]).descriptor.id@ == id@) ==> result is Ok
            && after == before,
        after.len() == before.len(),
{
    if provider::has_entry(before, id@) {
        let found = choose|place: int| provider::entry_at(before, id@, place);
        assert(before[found].descriptor.id@ == id@);
        let place = choose|place: int|
            {
                &&& #[trigger] provider::entry_at(before, id@, place)
                &&& if provider::serves(before[place], account@) {
                    &&& result matches Ok(handle)
                    &&& provider::hands_out(before[place], account@, handle)
                    &&& after == before
                } else {
                    exists|produced: ProviderResult<Produced<P>>|
                        #[trigger] provider::made_and_published(
                            before,
                            place,
                            id,
                            account,
                            produced,
                            result,
                            after,
                        )
                }
            };
        assert(before[place].descriptor.id@ == id@);
        if !provider::serves(before[place], account@) {
            let produced = choose|produced: ProviderResult<Produced<P>>|
                #[trigger] provider::made_and_published(
                    before,
                    place,
                    id,
                    account,
                    produced,
                    result,
                    after,
                );
            published_instances_are_kept(before, id, account@, produced, result, after);
        }
    } else {
        assert forall|i: int| 0 <= i < before.len() implies (#[trigger] before[i]).descriptor.id@
            != id@ by {
            if before[i].descriptor.id@ == id@ {
                assert(provider::entry_at(before, id@, i));
            }
        }
    }
}

/// A provider serves every account, unless it is made for each; then it serves those
/// that it was made for.
pub proof fn made_providers_serve_their_accounts<P, F>(entry: Entry<P, F>, account: Seq<char>)
    ensures
        entry.registration is Singleton ==> provider::serves(entry, account),
        entry.registration matches Registration::Factory { instances, .. } ==> (
        provider::serves(entry, account) <==> exists|i: int|
            0 <= i < instances@.len() && (#[trigger] instances@[i]).account@ == account),
{
    if let Registration::Factory { instances, .. } = entry.registration {
        if provider::has_instance(instances@, account) {
            let i = choose|i: int| provider::instance_at(instances@, account, i);
            assert(instances@[i].account@ == account);
        }
        if exists|i: int| 0 <= i < instances@.len() && (#[trigger] instances@[i]).account@
            == account {
            let i = choose|i: int|
                0 <= i < instances@.len() && (#[trigger] instances@[i]).account@ == account;
            assert(provider::instance_at(instances@, account, i));
        }
    }
}

/// A copied description is the same in all that it tells.
pub proof fn copied_descriptions_tell_the_same(
    left: provider::ProviderDescriptor,
    right: provider::ProviderDescriptor,
)
    requires
        provider::same_descriptor(left, right),
    ensures
        left.id@ == right.id@,
        left.display_name@ == right.display_name@,
        left.capabilities@ == right.capabilities@,
{
}

/// What is handed out for an account is the single provider, or the instance that was
/// made for that account.
pub proof fn the_accounts_own_provider_is_handed_out<P: Clone, F>(
    entry: Entry<P, F>,
    account: Seq<char>,
    handle: P,
)
    requires
        provider::hands_out(entry, account, handle),
    ensures
        entry.registration matches Registration::Singleton(only) ==> cloned(only, handle),
        entry.registration matches Registration::Factory { instances, .. } ==> exists|i: int|
            0 <= i < instances@.len() && (#[trigger] instances@[i]).account@ == account && cloned(
                instances@[i].provider,
                handle,
            ),
{
    if let Registration::Factory { instances, .. } = entry.registration {
        let i = choose|i: int|
            #[trigger] provider::instance_at(instances@, account, i) && cloned(
                instances@[i].provider,
                handle,
            );
        assert(instances@[i].account@ == account);
    }
}

/// An instance that is not there yet is what the entry's own factory made for that
/// account.
pub proof fn instances_are_made_by_their_factory<
    P: Clone,
    F: Fn(&str) -> ProviderResult<Produced<P>>,
>(
    before: Seq<Entry<P, F>>,
    place: int,
    id: ProviderId,
    account: &str,
    produced: ProviderResult<Produced<P>>,
    result: Result<P, RegistryError>,
    after: Seq<Entry<P, F>>,
)
    requires
        provider::made_and_published(before, place, id, account, produced, result, after),
    ensures
        before[place].registration matches Registration::Factory { factory, .. }
            && factory.ensures((account,), produced),
        provider::publishes(before, id, account@, produced, result, after),
{
}

} // verus!
