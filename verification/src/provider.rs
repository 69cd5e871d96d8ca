//! Providers: what names and describes them, and the registry that hands out
//! their instances.

use vstd::prelude::*;
use vstd::string::StringExecFns;

use crate::error::{ProviderErrorKind, ProviderResult};
use crate::identity;
use crate::text;
use crate::text::TextOrder;

verus! {

/// Account key used by [`ProviderRegistry::get`] and by providers that store a
/// single credential per provider.
pub const DEFAULT_ACCOUNT_ID: &'static str = "active";

/// Names a provider.
#[derive(Debug, PartialEq, Eq, PartialOrd, Ord, Hash)]
pub struct ProviderId(String);

impl View for ProviderId {
    type V = Seq<char>;

    closed spec fn view(&self) -> Seq<char> {
        self.0@
    }
}

impl Clone for ProviderId {
    fn clone(&self) -> (result: Self)
        ensures
            result == *self,
    {
        ProviderId(self.0.clone())
    }
}

/// An identifier that is not empty and that nothing in it obscures.
pub open spec fn usable_id(id: Seq<char>) -> bool {
    id.len() > 0 && !identity::unsafe_text(id)
}

impl ProviderId {
    /// Builds an id without validation; a registry rejects unusable ids at
    /// registration. Callers that need validation up front can use
    /// [`ProviderId::is_usable`].
    pub fn new(value: &str) -> (result: Self)
        ensures
            result@ == value@,
    {
        ProviderId(value.to_owned())
    }

    /// The id's text.
    pub fn as_str(&self) -> (result: &str)
        ensures
            result@ == self@,
    {
        self.0.as_str()
    }

    /// Whether the id is non-empty and free of control or bidirectional
    /// characters that could obscure it in logs and labels.
    pub fn is_usable(&self) -> (result: bool)
        ensures
            result == usable_id(self@),
    {
        !self.0.as_str().is_empty() && !identity::has_unsafe_character(self.0.as_str())
    }
}

/// Something a provider can do.
#[derive(Debug, PartialEq, Eq)]
pub enum Capability {
    Authentication,
    AuthenticationStatus,
    Logout,
    UsageQuery,
    SubscriptionExpiry,
    WorkspaceSelection,
    Other(String),
}

impl Clone for Capability {
    fn clone(&self) -> (result: Self)
        ensures
            result == *self,
    {
        match self {
            Capability::Authentication => Capability::Authentication,
            Capability::AuthenticationStatus => Capability::AuthenticationStatus,
            Capability::Logout => Capability::Logout,
            Capability::UsageQuery => Capability::UsageQuery,
            Capability::SubscriptionExpiry => Capability::SubscriptionExpiry,
            Capability::WorkspaceSelection => Capability::WorkspaceSelection,
            Capability::Other(name) => Capability::Other(name.clone()),
        }
    }
}

/// A workspace of a provider account.
#[derive(Debug, PartialEq, Eq)]
pub struct ProviderWorkspace {
    pub id: String,
    pub label: Option<String>,
}

/// What a provider says about itself.
#[derive(Debug, PartialEq, Eq)]
pub struct ProviderDescriptor {
    pub id: ProviderId,
    pub display_name: String,
    pub capabilities: Vec<Capability>,
}

/// Two descriptors that say the same.
pub open spec fn same_descriptor(left: ProviderDescriptor, right: ProviderDescriptor) -> bool {
    &&& left.id == right.id
    &&& left.display_name == right.display_name
    &&& left.capabilities@ == right.capabilities@
}

impl Clone for ProviderDescriptor {
    fn clone(&self) -> (result: Self)
        ensures
            same_descriptor(result, *self),
    {
        let mut capabilities: Vec<Capability> = Vec::new();
        let mut index: usize = 0;
        while index < self.capabilities.len()
            invariant
                index <= self.capabilities@.len(),
                capabilities@ == self.capabilities@.take(index as int),
            decreases self.capabilities.len() - index,
        {
            capabilities.push(self.capabilities[index].clone());
            index = index + 1;
            assert(self.capabilities@.take(index as int) == self.capabilities@.take(
                index - 1,
            ).push(self.capabilities@[index - 1]));
        }
        assert(self.capabilities@.take(index as int) == self.capabilities@);
        ProviderDescriptor {
            id: self.id.clone(),
            display_name: self.display_name.clone(),
            capabilities,
        }
    }
}

/// What to ask a provider for.
#[derive(Debug, PartialEq, Eq)]
pub struct UsageQuery {
    pub account_label: Option<String>,
}

impl Default for UsageQuery {
    fn default() -> (result: Self)
        ensures
            result.account_label is None,
    {
        UsageQuery { account_label: None }
    }
}

/// Why the registry refused.
#[derive(Debug, PartialEq, Eq)]
pub enum RegistryError {
    Duplicate(ProviderId),
    NotFound(ProviderId),
    /// The id cannot safely name a registry entry; its text is untrusted, so
    /// it is carried for debugging but the message does not echo it.
    InvalidId(ProviderId),
    /// The factory produced an instance whose descriptor names a different
    /// provider; refusing it keeps lookups from returning the wrong adapter.
    DescriptorMismatch { registered: ProviderId, actual: ProviderId },
    /// The factory ran and failed; `kind` preserves the provider error
    /// category while the vendor text stays in the diagnostics channel.
    InstanceFailed { provider: ProviderId, kind: ProviderErrorKind },
    /// Unclassifiable initialization failure (for example a poisoned cache).
    InstanceUnavailable(ProviderId),
}

/// The name of a failure category.
pub open spec fn kind_text(kind: ProviderErrorKind) -> Seq<char> {
    match kind {
        ProviderErrorKind::AuthenticationInvalid => "AuthenticationInvalid"@,
        ProviderErrorKind::RateLimited => "RateLimited"@,
        ProviderErrorKind::Network => "Network"@,
        ProviderErrorKind::ProtocolIncompatible => "ProtocolIncompatible"@,
        ProviderErrorKind::UnsupportedCapability => "UnsupportedCapability"@,
    }
}

fn kind_name(kind: ProviderErrorKind) -> (result: &'static str)
    ensures
        result@ == kind_text(kind),
{
    match kind {
        ProviderErrorKind::AuthenticationInvalid => "AuthenticationInvalid",
        ProviderErrorKind::RateLimited => "RateLimited",
        ProviderErrorKind::Network => "Network",
        ProviderErrorKind::ProtocolIncompatible => "ProtocolIncompatible",
        ProviderErrorKind::UnsupportedCapability => "UnsupportedCapability",
    }
}

impl RegistryError {
    /// The refusal's description. An unusable id is not echoed.
    pub open spec fn described(self) -> Seq<char> {
        match self {
            RegistryError::Duplicate(id) => "provider is already registered: "@ + id@,
            RegistryError::NotFound(id) => "provider is not registered: "@ + id@,
            RegistryError::InvalidId(_) => "provider identifier is not usable"@,
            RegistryError::DescriptorMismatch { registered, actual } => {
                "provider factory returned an instance for "@ + actual@ + " instead of "@
                    + registered@
            },
            RegistryError::InstanceFailed { provider, kind } => {
                "provider account instance could not be initialized: "@ + provider@ + " ("@
                    + kind_text(kind) + ")"@
            },
            RegistryError::InstanceUnavailable(id) => {
                "provider account instance could not be initialized: "@ + id@
            },
        }
    }

    /// What a person reads about the refusal. The text of an unusable id is
    /// untrusted and left out.
    pub fn message(&self) -> (result: String)
        ensures
            result@ == self.described(),
    {
        match self {
            RegistryError::Duplicate(id) => text::join2(
                "provider is already registered: ",
                id.as_str(),
            ),
            RegistryError::NotFound(id) => text::join2(
                "provider is not registered: ",
                id.as_str(),
            ),
            RegistryError::InvalidId(_) => "provider identifier is not usable".to_owned(),
            RegistryError::DescriptorMismatch { registered, actual } => {
                let mut result = text::join3(
                    "provider factory returned an instance for ",
                    actual.as_str(),
                    " instead of ",
                );
                result.append(registered.as_str());
                result
            },
            RegistryError::InstanceFailed { provider, kind } => {
                let mut result = text::join3(
                    "provider account instance could not be initialized: ",
                    provider.as_str(),
                    " (",
                );
                result.append(kind_name(*kind));
                result.append(")");
                result
            },
            RegistryError::InstanceUnavailable(id) => text::join2(
                "provider account instance could not be initialized: ",
                id.as_str(),
            ),
        }
    }
}

/// The description of an unusable id is the same whatever the id holds, so
/// nothing of an untrusted id reaches the reader.
pub proof fn unusable_ids_are_not_echoed(first: ProviderId, second: ProviderId)
    ensures
        RegistryError::InvalidId(first).described() == RegistryError::InvalidId(second).described(),
{
}

impl Clone for RegistryError {
    fn clone(&self) -> (result: Self)
        ensures
            result == *self,
    {
        match self {
            RegistryError::Duplicate(id) => RegistryError::Duplicate(id.clone()),
            RegistryError::NotFound(id) => RegistryError::NotFound(id.clone()),
            RegistryError::InvalidId(id) => RegistryError::InvalidId(id.clone()),
            RegistryError::DescriptorMismatch { registered, actual } => {
                RegistryError::DescriptorMismatch {
                    registered: registered.clone(),
                    actual: actual.clone(),
                }
            },
            RegistryError::InstanceFailed { provider, kind } => RegistryError::InstanceFailed {
                provider: provider.clone(),
                kind: *kind,
            },
            RegistryError::InstanceUnavailable(id) => RegistryError::InstanceUnavailable(
                id.clone(),
            ),
        }
    }
}

/// What a factory made: a provider and the id its descriptor names.
pub struct Produced<P> {
    pub id: ProviderId,
    pub provider: P,
}

/// A provider instance that was made for one account.
pub struct Instance<P> {
    pub account: String,
    pub provider: P,
}

/// How an entry comes by its instances.
pub enum Registration<P, F> {
    /// One instance for every account.
    Singleton(P),
    /// One instance per account, made on first use.
    Factory { factory: F, instances: Vec<Instance<P>> },
}

/// One registered provider.
pub struct Entry<P, F> {
    pub descriptor: ProviderDescriptor,
    pub registration: Registration<P, F>,
}

/// What a lookup found.
pub enum Lookup<'a, P, F> {
    /// No provider has that id.
    NotFound,
    /// The instance for the account.
    Found(P),
    /// The provider makes its instances with that, and has made none for the
    /// account yet.
    NeedsInstance(&'a F),
}

/// The registered providers, in the order of their ids.
///
/// `P` is a handle on a provider instance and `F` makes one for an account.
pub struct ProviderRegistry<P, F> {
    entries: Vec<Entry<P, F>>,
}

/// The place of the entry with that id.
pub open spec fn entry_at<P, F>(entries: Seq<Entry<P, F>>, id: Seq<char>, place: int) -> bool {
    0 <= place < entries.len() && entries[place].descriptor.id@ == id
}

/// One of the entries has that id.
pub open spec fn has_entry<P, F>(entries: Seq<Entry<P, F>>, id: Seq<char>) -> bool {
    exists|place: int| entry_at(entries, id, place)
}

/// Every id is usable, and they stand in strictly ascending order: none twice.
pub open spec fn well_formed<P, F>(entries: Seq<Entry<P, F>>) -> bool {
    &&& forall|i: int|
        0 <= i < entries.len() ==> usable_id((#[trigger] entries[i]).descriptor.id@)
    &&& forall|i: int, j: int|
        0 <= i < j < entries.len() ==> text::comes_before(
            (#[trigger] entries[i]).descriptor.id@,
            (#[trigger] entries[j]).descriptor.id@,
        )
}

/// The place of the account's instance.
pub open spec fn instance_at<P>(
    instances: Seq<Instance<P>>,
    account: Seq<char>,
    place: int,
) -> bool {
    0 <= place < instances.len() && instances[place].account@ == account
}

/// An instance was made for the account.
pub open spec fn has_instance<P>(instances: Seq<Instance<P>>, account: Seq<char>) -> bool {
    exists|place: int| instance_at(instances, account, place)
}

/// The handle is the one the entry has for the account.
pub open spec fn hands_out<P: Clone, F>(entry: Entry<P, F>, account: Seq<char>, handle: P) -> bool {
    match entry.registration {
        Registration::Singleton(only) => cloned(only, handle),
        Registration::Factory { instances, .. } => exists|place: int|
            #[trigger] instance_at(instances@, account, place) && cloned(
                instances@[place].provider,
                handle,
            ),
    }
}

/// The entry has a handle for the account.
pub open spec fn serves<P, F>(entry: Entry<P, F>, account: Seq<char>) -> bool {
    match entry.registration {
        Registration::Singleton(_) => true,
        Registration::Factory { instances, .. } => has_instance(instances@, account),
    }
}

/// The entry after an instance for the account was added to it.
pub open spec fn with_instance<P, F>(
    before: Entry<P, F>,
    account: Seq<char>,
    provider: P,
    after: Entry<P, F>,
) -> bool {
    &&& after.descriptor == before.descriptor
    &&& before.registration matches Registration::Factory { factory, instances }
    &&& after.registration matches Registration::Factory {
        factory: same_factory,
        instances: more,
    }
    &&& same_factory == factory
    &&& more@.len() == instances@.len() + 1
    &&& more@.drop_last() == instances@
    &&& more@.last().account@ == account
    &&& more@.last().provider == provider
}

fn find_instance<P>(instances: &Vec<Instance<P>>, account: &str) -> (result: Option<usize>)
    ensures
        match result {
            Some(place) => instance_at(instances@, account@, place as int),
            None => !has_instance(instances@, account@),
        },
{
    let mut index: usize = 0;
    while index < instances.len()
        invariant
            index <= instances@.len(),
            forall|i: int| i < index ==> !#[trigger] instance_at(instances@, account@, i),
        decreases instances.len() - index,
    {
        if text::same_text(instances[index].account.as_str(), account) {
            return Some(index);
        }
        index = index + 1;
    }
    None
}

impl<P, F> ProviderRegistry<P, F> {
    #[verifier::type_invariant]
    spec fn is_ordered(self) -> bool {
        well_formed(self.entries@)
    }
}

impl<P: Clone, F> ProviderRegistry<P, F> {
    /// The entries, in order.
    pub closed spec fn entries(&self) -> Seq<Entry<P, F>> {
        self.entries@
    }

    /// Every id is usable, and they stand in strictly ascending order: none twice.
    pub open spec fn wf(&self) -> bool {
        well_formed(self.entries())
    }

    /// A registry without providers.
    pub fn new() -> (result: Self)
        ensures
            result.wf(),
            result.entries() == Seq::<Entry<P, F>>::empty(),
    {
        ProviderRegistry { entries: Vec::new() }
    }

    fn position(&self, id: &str) -> (result: Option<usize>)
        ensures
            match result {
                Some(place) => entry_at(self.entries(), id@, place as int),
                None => !has_entry(self.entries(), id@),
            },
    {
        let mut index: usize = 0;
        while index < self.entries.len()
            invariant
                index <= self.entries@.len(),
                forall|i: int| i < index ==> !#[trigger] entry_at(self.entries(), id@, i),
            decreases self.entries.len() - index,
        {
            if text::same_text(self.entries[index].descriptor.id.as_str(), id) {
                return Some(index);
            }
            index = index + 1;
        }
        None
    }

    fn insert(&mut self, entry: Entry<P, F>) -> (result: Result<(), RegistryError>)
        ensures
            final(self).wf(),
            registers(old(self).entries(), entry, result, final(self).entries()),
    {
        proof {
            use_type_invariant(&*self);
        }
        if !entry.descriptor.id.is_usable() {
            return Err(RegistryError::InvalidId(entry.descriptor.id));
        }
        let ghost before = self.entries@;
        let mut place: usize = 0;
        while place < self.entries.len()
            invariant
                self.entries@ == before,
                well_formed(before),
                place <= before.len(),
                forall|i: int|
                    0 <= i < place ==> text::comes_before(
                        (#[trigger] before[i]).descriptor.id@,
                        entry.descriptor.id@,
                    ),
            ensures
                self.entries@ == before,
                place <= before.len(),
                forall|i: int|
                    0 <= i < place ==> text::comes_before(
                        (#[trigger] before[i]).descriptor.id@,
                        entry.descriptor.id@,
                    ),
                place < before.len() ==> text::comes_before(
                    entry.descriptor.id@,
                    before[place as int].descriptor.id@,
                ),
            decreases self.entries.len() - place,
        {
            let order = text::order(
                self.entries[place].descriptor.id.as_str(),
                entry.descriptor.id.as_str(),
            );
            match order {
                TextOrder::Before => {},
                TextOrder::Same => {
                    assert(entry_at(before, entry.descriptor.id@, place as int));
                    return Err(RegistryError::Duplicate(entry.descriptor.id));
                },
                TextOrder::After => {
                    break;
                },
            }
            place = place + 1;
        }
        let ghost id = entry.descriptor.id@;
        proof {
            assert forall|i: int| place <= i < before.len() implies text::comes_before(
                id,
                (#[trigger] before[i]).descriptor.id@,
            ) by {
                if i > place {
                    text::order_is_transitive(
                        id,
                        before[place as int].descriptor.id@,
                        before[i].descriptor.id@,
                    );
                }
            }
            assert(!has_entry(before, id)) by {
                assert forall|i: int| !#[trigger] entry_at(before, id, i) by {
                    if 0 <= i < place {
                        text::order_is_strict(before[i].descriptor.id@, id);
                    }
                    if place <= i < before.len() {
                        text::order_is_strict(id, before[i].descriptor.id@);
                    }
                }
            }
        }
        let mut entries: Vec<Entry<P, F>> = Vec::new();
        std::mem::swap(&mut entries, &mut self.entries);
        entries.insert(place, entry);
        assert(entries@ == before.insert(place as int, entry));
        self.entries = entries;
        Ok(())
    }

    /// Registers a provider under the id its descriptor names.
    pub fn register_arc(&mut self, descriptor: ProviderDescriptor, provider: P) -> (result: Result<
        (),
        RegistryError,
    >)
        ensures
            final(self).wf(),
            registers(
                old(self).entries(),
                (Entry { descriptor, registration: Registration::Singleton(provider) }),
                result,
                final(self).entries(),
            ),
    {
        self.insert(Entry { descriptor, registration: Registration::Singleton(provider) })
    }

    /// Registers a provider that makes one instance per account.
    pub fn register_factory(&mut self, descriptor: ProviderDescriptor, factory: F) -> (result:
        Result<(), RegistryError>)
        ensures
            final(self).wf(),
            exists|entry: Entry<P, F>|
                {
                    &&& entry.descriptor == descriptor
                    &&& entry.registration matches Registration::Factory { factory: f, instances }
                    &&& f == factory
                    &&& instances@.len() == 0
                    &&& #[trigger] registers(
                        old(self).entries(),
                        entry,
                        result,
                        final(self).entries(),
                    )
                },
    {
        let entry = Entry {
            descriptor,
            registration: Registration::Factory { factory, instances: Vec::new() },
        };
        self.insert(entry)
    }

    /// Whether a provider has that id.
    pub fn contains(&self, id: &ProviderId) -> (result: bool)
        ensures
            result == has_entry(self.entries(), id@),
    {
        self.position(id.as_str()).is_some()
    }

    /// What every provider says about itself, in the order of their ids.
    pub fn descriptors(&self) -> (result: Vec<ProviderDescriptor>)
        ensures
            self.wf(),
            result@.len() == self.entries().len(),
            forall|i: int|
                0 <= i < result@.len() ==> same_descriptor(
                    #[trigger] result@[i],
                    self.entries()[i].descriptor,
                ),
    {
        proof {
            use_type_invariant(self);
        }
        let mut result: Vec<ProviderDescriptor> = Vec::new();
        let mut index: usize = 0;
        while index < self.entries.len()
            invariant
                index <= self.entries@.len(),
                result@.len() == index,
                forall|i: int|
                    0 <= i < index ==> same_descriptor(
                        #[trigger] result@[i],
                        self.entries()[i].descriptor,
                    ),
            decreases self.entries.len() - index,
        {
            result.push(self.entries[index].descriptor.clone());
            index = index + 1;
        }
        result
    }

    /// The cached instance for the provider and account, where there is one, else
    /// what makes it.
    pub fn lookup(&self, id: &ProviderId, account_id: &str) -> (result: Lookup<'_, P, F>)
        ensures
            match result {
                Lookup::NotFound => !has_entry(self.entries(), id@),
                Lookup::Found(handle) => exists|place: int|
                    #[trigger] entry_at(self.entries(), id@, place) && hands_out(
                        self.entries()[place],
                        account_id@,
                        handle,
                    ),
                Lookup::NeedsInstance(maker) => exists|place: int|
                    #[trigger] entry_at(self.entries(), id@, place) && !serves(
                        self.entries()[place],
                        account_id@,
                    ) && makes_with(self.entries()[place], *maker),
            },
    {
        match self.position(id.as_str()) {
            None => Lookup::NotFound,
            Some(place) => match self.instance(place, account_id) {
                Some(handle) => Lookup::Found(handle),
                None => match &self.entries[place].registration {
                    Registration::Singleton(provider) => Lookup::Found(provider.clone()),
                    Registration::Factory { factory, .. } => {
                        assert(makes_with(self.entries()[place as int], *factory));
                        Lookup::NeedsInstance(factory)
                    },
                },
            },
        }
    }

    fn instance(&self, place: usize, account_id: &str) -> (result: Option<P>)
        requires
            place < self.entries().len(),
        ensures
            match result {
                Some(handle) => {
                    &&& serves(self.entries()[place as int], account_id@)
                    &&& hands_out(self.entries()[place as int], account_id@, handle)
                },
                None => !serves(self.entries()[place as int], account_id@),
            },
    {
        let ghost entry = self.entries@[place as int];
        match &self.entries[place].registration {
            Registration::Singleton(provider) => {
                let handle = provider.clone();
                assert(hands_out(entry, account_id@, handle));
                Some(handle)
            },
            Registration::Factory { instances, .. } => match find_instance(instances, account_id) {
                Some(found) => {
                    let handle = instances[found].provider.clone();
                    assert(instance_at(instances@, account_id@, found as int));
                    assert(hands_out(entry, account_id@, handle));
                    Some(handle)
                },
                None => None,
            },
        }
    }

    /// Publishes what a factory made for the account and hands out the
    /// account's instance. If two callers race, the first instance published
    /// stays and the other is dropped.
    pub fn publish(
        &mut self,
        id: &ProviderId,
        account_id: &str,
        produced: ProviderResult<Produced<P>>,
    ) -> (result: Result<P, RegistryError>)
        ensures
            final(self).wf(),
            publishes(
                old(self).entries(),
                *id,
                account_id@,
                produced,
                result,
                final(self).entries(),
            ),
    {
        proof {
            use_type_invariant(&*self);
        }
        let made = match produced {
            Ok(made) => made,
            Err(error) => {
                return Err(
                    RegistryError::InstanceFailed { provider: id.clone(), kind: error.kind() },
                );
            },
        };
        if !text::same_text(made.id.as_str(), id.as_str()) {
            return Err(
                RegistryError::DescriptorMismatch { registered: id.clone(), actual: made.id },
            );
        }
        let ghost before = self.entries@;
        match self.position(id.as_str()) {
            None => Err(RegistryError::NotFound(id.clone())),
            Some(place) => {
                assert(entry_at(before, id@, place as int));
                if let Some(handle) = self.instance(place, account_id) {
                    return Ok(handle);
                }
                let mut entries: Vec<Entry<P, F>> = Vec::new();
                std::mem::swap(&mut entries, &mut self.entries);
                let mut entry = entries.remove(place);
                let handle = made.provider.clone();
                let ghost provider = made.provider;
                let ghost source = entry;
                match entry.registration {
                    Registration::Singleton(only) => {
                        entry.registration = Registration::Singleton(only);
                    },
                    Registration::Factory { factory, mut instances } => {
                        let ghost earlier = instances@;
                        instances.push(
                            Instance { account: account_id.to_owned(), provider: made.provider },
                        );
                        assert(instances@.drop_last() =~= earlier);
                        entry.registration = Registration::Factory { factory, instances };
                    },
                }
                entries.insert(place, entry);
                assert(entries@ =~= before.update(place as int, entry));
                self.entries = entries;
                proof {
                    assert(with_instance(source, account_id@, provider, entry));
                    assert(entry_at(before, id@, place as int));
                    assert(cloned(provider, handle));
                }
                Ok(handle)
            },
        }
    }
}

impl<P: Clone, F: Fn(&str) -> ProviderResult<Produced<P>>> ProviderRegistry<P, F> {
    /// Every factory can be asked for an instance for any account.
    pub open spec fn factories_callable(&self) -> bool {
        forall|i: int, account: &str|
            0 <= i < self.entries().len() ==> #[trigger] can_make(self.entries()[i], account)
    }

    /// Returns the instance for the default account.
    pub fn get(&mut self, id: &ProviderId) -> (result: Result<P, RegistryError>)
        requires
            old(self).factories_callable(),
        ensures
            final(self).wf(),
            obtains(
                old(self).entries(),
                *id,
                DEFAULT_ACCOUNT_ID,
                result,
                final(self).entries(),
            ),
    {
        self.get_for_account(id, DEFAULT_ACCOUNT_ID)
    }

    /// Returns the cached instance for `(id, account_id)`, constructing one on
    /// a miss.
    pub fn get_for_account(&mut self, id: &ProviderId, account_id: &str) -> (result: Result<
        P,
        RegistryError,
    >)
        requires
            old(self).factories_callable(),
        ensures
            final(self).wf(),
            obtains(old(self).entries(), *id, account_id, result, final(self).entries()),
    {
        proof {
            use_type_invariant(&*self);
        }
        let ghost before = self.entries@;
        let place = match self.position(id.as_str()) {
            Some(place) => place,
            None => {
                return Err(RegistryError::NotFound(id.clone()));
            },
        };
        assert(entry_at(before, id@, place as int));
        if let Some(handle) = self.instance(place, account_id) {
            return Ok(handle);
        }
        let produced = match &self.entries[place].registration {
            Registration::Singleton(provider) => {
                return Ok(provider.clone());
            },
            Registration::Factory { factory, .. } => {
                assert(can_make(self.entries()[place as int], account_id));
                factory(account_id)
            },
        };
        let result = self.publish(id, account_id, produced);
        assert(made_and_published(before, place as int, *id, account_id, produced, result, self.entries@));
        result
    }
}

/// The entry makes its instances with that factory.
pub open spec fn makes_with<P, F>(entry: Entry<P, F>, maker: F) -> bool {
    entry.registration matches Registration::Factory { factory, .. } && factory == maker
}

/// The entry's factory, if it has one, can be asked for an instance for the account.
pub open spec fn can_make<P, F: Fn(&str) -> ProviderResult<Produced<P>>>(
    entry: Entry<P, F>,
    account: &str,
) -> bool {
    entry.registration matches Registration::Factory { factory, .. } ==> factory.requires(
        (account,),
    )
}

/// A factory made that for the account, and publishing it gave the result.
pub open spec fn made_and_published<P: Clone, F: Fn(&str) -> ProviderResult<Produced<P>>>(
    before: Seq<Entry<P, F>>,
    place: int,
    id: ProviderId,
    account: &str,
    produced: ProviderResult<Produced<P>>,
    result: Result<P, RegistryError>,
    after: Seq<Entry<P, F>>,
) -> bool {
    &&& before[place].registration matches Registration::Factory { factory, .. }
    &&& factory.ensures((account,), produced)
    &&& publishes(before, id, account@, produced, result, after)
}

/// Asking for the account's instance gives the result and leaves those entries:
/// an instance that is there is handed out, and one that is not is made and
/// published.
pub open spec fn obtains<P: Clone, F: Fn(&str) -> ProviderResult<Produced<P>>>(
    before: Seq<Entry<P, F>>,
    id: ProviderId,
    account: &str,
    result: Result<P, RegistryError>,
    after: Seq<Entry<P, F>>,
) -> bool {
    if !has_entry(before, id@) {
        result == Err::<P, RegistryError>(RegistryError::NotFound(id)) && after == before
    } else {
        exists|place: int|
            {
                &&& #[trigger] entry_at(before, id@, place)
                &&& if serves(before[place], account@) {
                    &&& result matches Ok(handle)
                    &&& hands_out(before[place], account@, handle)
                    &&& after == before
                } else {
                    exists|produced: ProviderResult<Produced<P>>|
                        #[trigger] made_and_published(
                            before,
                            place,
                            id,
                            account,
                            produced,
                            result,
                            after,
                        )
                }
            }
    }
}

impl<T, F> ProviderRegistry<std::sync::Arc<T>, F> {
    /// Registers a provider under the id its descriptor names.
    pub fn register(&mut self, descriptor: ProviderDescriptor, provider: T) -> (result: Result<
        (),
        RegistryError,
    >)
        ensures
            final(self).wf(),
            registers(
                old(self).entries(),
                (Entry {
                    descriptor,
                    registration: Registration::Singleton(std::sync::Arc::new(provider)),
                }),
                result,
                final(self).entries(),
            ),
    {
        self.register_arc(descriptor, std::sync::Arc::new(provider))
    }
}

/// Registering the entry gives the result and leaves those entries: an unusable
/// or a taken id is refused and nothing changes; any other entry is put in its
/// place among the others.
pub open spec fn registers<P, F>(
    before: Seq<Entry<P, F>>,
    entry: Entry<P, F>,
    result: Result<(), RegistryError>,
    after: Seq<Entry<P, F>>,
) -> bool {
    let id = entry.descriptor.id;
    if !usable_id(id@) {
        result == Err::<(), RegistryError>(RegistryError::InvalidId(id)) && after == before
    } else if has_entry(before, id@) {
        result == Err::<(), RegistryError>(RegistryError::Duplicate(id)) && after == before
    } else {
        &&& result is Ok
        &&& exists|place: int|
            0 <= place <= before.len() && after == #[trigger] before.insert(place, entry)
    }
}

/// Publishing what a factory made gives the result and leaves those entries.
pub open spec fn publishes<P: Clone, F>(
    before: Seq<Entry<P, F>>,
    id: ProviderId,
    account: Seq<char>,
    produced: ProviderResult<Produced<P>>,
    result: Result<P, RegistryError>,
    after: Seq<Entry<P, F>>,
) -> bool {
    match produced {
        Err(error) => {
            &&& result == Err::<P, RegistryError>(
                RegistryError::InstanceFailed { provider: id, kind: error.category() },
            )
            &&& after == before
        },
        Ok(made) => if made.id@ != id@ {
            &&& result == Err::<P, RegistryError>(
                RegistryError::DescriptorMismatch { registered: id, actual: made.id },
            )
            &&& after == before
        } else if !has_entry(before, id@) {
            result == Err::<P, RegistryError>(RegistryError::NotFound(id)) && after == before
        } else {
            &&& result matches Ok(handle)
            &&& exists|place: int|
                {
                    &&& #[trigger] entry_at(before, id@, place)
                    &&& if serves(before[place], account) {
                        hands_out(before[place], account, handle) && after == before
                    } else {
                        &&& cloned(made.provider, handle)
                        &&& after.len() == before.len()
                        &&& with_instance(before[place], account, made.provider, after[place])
                        &&& forall|i: int|
                            0 <= i < before.len() && i != place ==> #[trigger] after[i]
                                == before[i]
                    }
                }
        },
    }
}

/// An instance that was added is the one that is handed out for its account.
proof fn added_instances_are_handed_out<P: Clone, F>(
    before: Entry<P, F>,
    account: Seq<char>,
    provider: P,
    after: Entry<P, F>,
)
    requires
        with_instance(before, account, provider, after),
        !serves(before, account),
    ensures
        serves(after, account),
        forall|handle: P|
            #[trigger] hands_out(after, account, handle) ==> cloned(provider, handle),
{
    let instances = after.registration->instances@;
    assert(instance_at(instances, account, instances.len() - 1));
    assert forall|handle: P| #[trigger] hands_out(after, account, handle) implies cloned(
        provider,
        handle,
    ) by {
        let place = choose|place: int|
            #[trigger] instance_at(instances, account, place) && cloned(
                instances[place].provider,
                handle,
            );
        if place < instances.len() - 1 {
            let earlier = before.registration->instances@;
            assert(instances.drop_last()[place] == instances[place]);
            assert(instance_at(earlier, account, place));
        }
    }
}

/// Of two instances that are published for one account the first stays: the
/// second is dropped, nothing else changes, and the first is what the second
/// caller is handed.
pub proof fn the_first_published_instance_stays<P: Clone, F>(
    before: Seq<Entry<P, F>>,
    id: ProviderId,
    account: Seq<char>,
    first: Produced<P>,
    handle: P,
    between: Seq<Entry<P, F>>,
    second: Produced<P>,
    result: Result<P, RegistryError>,
    after: Seq<Entry<P, F>>,
)
    requires
        well_formed(before),
        forall|place: int| #[trigger]
            entry_at(before, id@, place) ==> !serves(before[place], account),
        publishes(before, id, account, Ok(first), Ok(handle), between),
        second.id@ == id@,
        publishes(between, id, account, Ok(second), result, after),
    ensures
        after == between,
        result matches Ok(handed) && cloned(first.provider, handed),
{
    let place = choose|place: int|
        {
            &&& #[trigger] entry_at(before, id@, place)
            &&& with_instance(before[place], account, first.provider, between[place])
            &&& forall|i: int|
                0 <= i < before.len() && i != place ==> #[trigger] between[i] == before[i]
        };
    added_instances_are_handed_out(before[place], account, first.provider, between[place]);
    assert(entry_at(between, id@, place));
    assert forall|other: int| #[trigger] entry_at(between, id@, other) implies other == place by {
        if other != place {
            assert(between[other] == before[other]);
            assert(text::comes_before(id@, id@));
            text::order_is_strict(id@, id@);
        }
    }
}

/// A provider that was registered can be found, and a second one of the same id
/// is refused and changes nothing.
pub proof fn registering_an_id_twice_is_refused<P, F>(
    before: Seq<Entry<P, F>>,
    first: Entry<P, F>,
    between: Seq<Entry<P, F>>,
    second: Entry<P, F>,
    result: Result<(), RegistryError>,
    after: Seq<Entry<P, F>>,
)
    requires
        registers(before, first, Ok(()), between),
        second.descriptor.id@ == first.descriptor.id@,
        registers(between, second, result, after),
    ensures
        has_entry(between, first.descriptor.id@),
        result == Err::<(), RegistryError>(RegistryError::Duplicate(second.descriptor.id)),
        after == between,
{
    let place = choose|place: int|
        0 <= place <= before.len() && between == #[trigger] before.insert(place, first);
    assert(entry_at(between, first.descriptor.id@, place));
}

} // verus!
