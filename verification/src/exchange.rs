//! The exchange: payment against newly issued units of a resource, as one
//! atomic request.
//!
//! Three steps, in this order: the payer's value moves to the treasury; the
//! destination record of the payer is created unless it exists; units are
//! issued to the destination on behalf of the treasury, an identity that the
//! selling component derives from the resource's address. The request is
//! decided as a whole before anything is changed, so a failure of any step
//! leaves every record as it was.

use vstd::prelude::*;
use crate::deriver::derive_spec;
use crate::error::Error;
use crate::guard::{DelegationView, Mutation, ProofView};
use crate::identity::{Identity, Signer, IDENTITY_BYTES};
use crate::invoke::{authorize, authorize_spec, Capability};
use crate::request::{
    bound_spec, has_signed, identity_seed, require_bound, require_signature, DISCRIMINATOR_BYTES,
    NUMBER_BYTES,
};
use crate::store::{with_payload, Payload, StateRecord, Store};

verus! {

/// The value that an identity holds.
#[derive(Clone, Copy, Debug, PartialEq, Eq, Structural)]
pub struct Wallet {
    pub balance: u64,
}

/// Units of a resource held for an owner: the destination of an exchange.
#[derive(Clone, Copy, Debug, PartialEq, Eq)]
pub struct Holding {
    /// The address of the resource.
    pub resource: Identity,
    /// Whose units these are.
    pub owner: Identity,
    /// How many units.
    pub amount: u64,
}

/// A resource whose units are issued by the authority of its record.
#[derive(Clone, Copy, Debug, PartialEq, Eq, Structural)]
pub struct Resource {
    /// How many units exist.
    pub supply: u64,
}

/// The issue of new units of a resource.
pub struct Issue {
    pub quantity: u64,
}

/// Bytes that a wallet's record needs.
pub const WALLET_SPACE: usize = 0;

/// Bytes that a holding's record needs: the tag, two identities, the amount.
pub const HOLDING_SPACE: usize = DISCRIMINATOR_BYTES + 2 * IDENTITY_BYTES + NUMBER_BYTES;

/// Bytes that a resource's record needs: the tag and the supply.
pub const RESOURCE_SPACE: usize = DISCRIMINATOR_BYTES + NUMBER_BYTES;

impl Payload for Wallet {
    open spec fn footprint(&self) -> nat {
        WALLET_SPACE as nat
    }

    fn fits(&self, capacity: usize) -> (b: bool) {
        true
    }
}

impl Payload for Holding {
    open spec fn footprint(&self) -> nat {
        HOLDING_SPACE as nat
    }

    fn fits(&self, capacity: usize) -> (b: bool) {
        HOLDING_SPACE <= capacity
    }
}

impl Payload for Resource {
    open spec fn footprint(&self) -> nat {
        RESOURCE_SPACE as nat
    }

    fn fits(&self, capacity: usize) -> (b: bool) {
        RESOURCE_SPACE <= capacity
    }
}

impl Mutation<Resource> for Issue {
    open spec fn applied(&self, payload: Resource) -> Resource {
        if payload.supply + self.quantity <= u64::MAX {
            Resource { supply: (payload.supply + self.quantity) as u64 }
        } else {
            payload
        }
    }

    fn apply(&self, payload: &Resource) -> (next: Resource) {
        match payload.supply.checked_add(self.quantity) {
            Some(supply) => Resource { supply: supply },
            None => *payload,
        }
    }
}

/// Who holds how much value. An identity without a wallet holds nothing.
pub struct Ledger {
    wallets: Store<Wallet>,
}

impl Ledger {
    /// Well-formedness of the ledger.
    pub closed spec fn wf(&self) -> bool {
        self.wallets.wf()
    }

    /// The value that `holder` holds.
    pub closed spec fn balance_of(&self, holder: Seq<u8>) -> u64 {
        if self.wallets@.dom().contains(holder) {
            self.wallets@[holder].payload.balance
        } else {
            0
        }
    }

    /// A ledger on which nobody holds anything.
    pub fn new() -> (ledger: Ledger)
        ensures
            ledger.wf(),
            forall|a: Seq<u8>| ledger.balance_of(a) == 0,
    {
        Ledger { wallets: Store::new() }
    }

    /// The value that `holder` holds.
    pub fn balance(&self, holder: &Identity) -> (value: u64)
        requires
            self.wf(),
        ensures
            value == self.balance_of(holder@),
    {
        match self.wallets.find(holder) {
            Some(h) => self.wallets.record(h).payload.balance,
            None => 0,
        }
    }

    /// Makes `balance` the value that `holder` holds, opening a wallet for
    /// a holder that has none.
    fn set_balance(&mut self, holder: &Identity, balance: u64)
        requires
            old(self).wf(),
        ensures
            final(self).wf(),
            forall|a: Seq<u8>|
                #![trigger final(self).balance_of(a)]
                final(self).balance_of(a) == if a == holder@ {
                    balance
                } else {
                    old(self).balance_of(a)
                },
    {
        match self.wallets.find(holder) {
            Some(h) => {
                let _ = self.wallets.put(h, Wallet { balance: balance });
            },
            None => {
                let system = Identity::zero();
                let _ = self.wallets.create(
                    holder,
                    &system,
                    holder,
                    Wallet { balance: balance },
                    WALLET_SPACE,
                );
            },
        }
    }

    /// Credits `holder` with `amount` out of nowhere: how value enters the
    /// ledger.
    ///
    /// Fails with `ArithmeticOverflow`, changing nothing, when the balance
    /// would leave its range.
    pub fn deposit(&mut self, holder: &Identity, amount: u64) -> (r: Result<(), Error>)
        requires
            old(self).wf(),
        ensures
            final(self).wf(),
            r == if old(self).balance_of(holder@) + amount > u64::MAX {
                Err::<(), Error>(Error::ArithmeticOverflow)
            } else {
                Ok::<(), Error>(())
            },
            r is Ok ==> forall|a: Seq<u8>|
                #![trigger final(self).balance_of(a)]
                final(self).balance_of(a) == if a == holder@ {
                    (old(self).balance_of(a) + amount) as u64
                } else {
                    old(self).balance_of(a)
                },
            r is Err ==> *final(self) == *old(self),
    {
        match self.balance(holder).checked_add(amount) {
            Some(balance) => {
                self.set_balance(holder, balance);
                Ok(())
            },
            None => Err(Error::ArithmeticOverflow),
        }
    }

    /// What moving `amount` from `from` to `to` comes to.
    pub open spec fn move_spec(&self, from: Seq<u8>, to: Seq<u8>, amount: u64) -> Result<(), Error> {
        if self.balance_of(from) < amount {
            Err(Error::InsufficientFunds)
        } else if from != to && self.balance_of(to) + amount > u64::MAX {
            Err(Error::ArithmeticOverflow)
        } else {
            Ok(())
        }
    }

    /// The value that `holder` holds after `amount` moved from `from` to `to`.
    pub open spec fn moved(&self, from: Seq<u8>, to: Seq<u8>, amount: u64, holder: Seq<u8>) -> int {
        if from == to {
            self.balance_of(holder) as int
        } else if holder == from {
            self.balance_of(holder) - amount
        } else if holder == to {
            self.balance_of(holder) + amount
        } else {
            self.balance_of(holder) as int
        }
    }

    /// Moves `amount` from `from` to `to`.
    ///
    /// Fails with `InsufficientFunds` when `from` holds less than `amount`,
    /// and with `ArithmeticOverflow` when the balance of `to` would leave
    /// its range. On failure the ledger is unchanged.
    pub fn move_value(&mut self, from: &Identity, to: &Identity, amount: u64) -> (r: Result<
        (),
        Error,
    >)
        requires
            old(self).wf(),
        ensures
            final(self).wf(),
            r == old(self).move_spec(from@, to@, amount),
            r is Ok ==> forall|a: Seq<u8>|
                #![trigger final(self).balance_of(a)]
                final(self).balance_of(a) == old(self).moved(from@, to@, amount, a),
            r is Err ==> *final(self) == *old(self),
    {
        let held = self.balance(from);
        if held < amount {
            return Err(Error::InsufficientFunds);
        }
        if from.same(to) {
            return Ok(());
        }
        let credited = match self.balance(to).checked_add(amount) {
            Some(value) => value,
            None => {
                return Err(Error::ArithmeticOverflow);
            },
        };
        self.set_balance(from, held - amount);
        self.set_balance(to, credited);
        Ok(())
    }
}

/// The records that an exchange works on.
pub struct Market {
    /// Who holds how much value.
    pub ledger: Ledger,
    /// The destination records, by address.
    pub holdings: Store<Holding>,
    /// The resources, by address.
    pub resources: Store<Resource>,
}

/// The terms of a sale.
pub struct Terms {
    /// The selling component, which derives the treasury.
    pub component: Identity,
    /// The label under which the treasury derives from the resource.
    pub label: Vec<u8>,
    /// The address of the resource on sale.
    pub resource: Identity,
    /// The derived identity that takes the payment and issues the units.
    pub treasury: Identity,
    /// The component that owns the resource and the holdings.
    pub token_component: Identity,
    /// The component under whose address destinations derive.
    pub holder_component: Identity,
    /// The address of the payer's holding.
    pub destination: Identity,
    /// Units issued per unit of value paid.
    pub multiplier: u64,
}

/// The identities that a sale is between, besides the payer.
pub struct Parties {
    /// The address of the resource on sale.
    pub resource: Identity,
    /// The derived identity that takes the payment and issues the units.
    pub treasury: Identity,
    /// The component that owns the resource and the holdings.
    pub token_component: Identity,
    /// The address of the payer's holding.
    pub destination: Identity,
}

impl Terms {
    /// The identities that the sale is between.
    pub open spec fn parties(&self) -> Parties {
        Parties {
            resource: self.resource,
            treasury: self.treasury,
            token_component: self.token_component,
            destination: self.destination,
        }
    }
}

/// The terms of a sale as plain values.
pub struct TermsView {
    pub component: Seq<u8>,
    pub label: Seq<u8>,
    pub resource: Seq<u8>,
    pub treasury: Seq<u8>,
    pub token_component: Seq<u8>,
    pub holder_component: Seq<u8>,
    pub destination: Seq<u8>,
    pub multiplier: u64,
}

impl View for Terms {
    type V = TermsView;

    open spec fn view(&self) -> TermsView {
        TermsView {
            component: self.component@,
            label: self.label@,
            resource: self.resource@,
            treasury: self.treasury@,
            token_component: self.token_component@,
            holder_component: self.holder_component@,
            destination: self.destination@,
            multiplier: self.multiplier,
        }
    }
}

/// The units that `amount` of value buys: a fixed multiple of it.
pub open spec fn receipt_spec(amount: u64, multiplier: u64) -> int {
    amount * multiplier
}

/// What the first step comes to: the payer must have signed and hold the
/// amount, and the treasury must have room for it.
pub open spec fn transfer_step(market: Market, terms: TermsView, payer: Signer, amount: u64)
    -> Result<(), Error> {
    if !has_signed(payer) {
        Err(Error::Unauthorized)
    } else {
        market.ledger.move_spec(payer.key@, terms.treasury, amount)
    }
}

/// Whether the record at the destination, if there is one, is the payer's
/// holding of the resource.
pub open spec fn destination_usable(market: Market, terms: TermsView, payer: Signer) -> bool {
    market.holdings.contains(terms.destination) ==> {
        let existing = market.holdings.record_at(terms.destination);
        &&& existing.owner_component@ == terms.token_component
        &&& existing.payload.resource@ == terms.resource
        &&& existing.payload.owner@ == payer.key@
    }
}

/// What the second step comes to: the destination must be the address
/// derived for the payer and the resource, and free or the payer's own.
pub open spec fn destination_step(market: Market, terms: TermsView, payer: Signer) -> Result<
    (),
    Error,
> {
    if bound_spec(
        terms.holder_component,
        payer.key@,
        seq![terms.token_component, terms.resource],
        terms.destination,
    ) is Err || !destination_usable(market, terms, payer) {
        Err(Error::RecordCreationFailed)
    } else {
        Ok(())
    }
}

/// The units that the destination holds before the exchange.
pub open spec fn held_before(market: Market, terms: TermsView) -> u64 {
    if market.holdings.contains(terms.destination) {
        market.holdings.record_at(terms.destination).payload.amount
    } else {
        0
    }
}

/// What the third step comes to: the units to issue, once the treasury is
/// found to be the identity derived for the resource, the bump to be the
/// one of that derivation, the resource to be there under the treasury's
/// authority, and the numbers to stay in range.
pub open spec fn issue_step(market: Market, terms: TermsView, bump: u8, amount: u64) -> Result<
    u64,
    Error,
> {
    if receipt_spec(amount, terms.multiplier) > u64::MAX {
        Err(Error::ArithmeticOverflow)
    } else {
        match derive_spec(terms.component, terms.label, seq![terms.resource]) {
            None => Err(Error::DerivationExhausted),
            Some((identity, found)) => if identity != terms.treasury {
                Err(Error::Unauthorized)
            } else if bump != found {
                Err(Error::UnauthorizedDelegation)
            } else {
                match authorize_spec(
                    market.resources,
                    terms.token_component,
                    terms.resource,
                    DelegationView {
                        caller: terms.component,
                        proof: ProofView {
                            label: terms.label,
                            seeds: seq![terms.resource],
                            bump: bump,
                            claimed_identity: identity,
                        },
                    },
                ) {
                    Err(e) => Err(e),
                    Ok(_) => if market.resources.record_at(terms.resource).payload.supply
                        + receipt_spec(amount, terms.multiplier) > u64::MAX || held_before(
                        market,
                        terms,
                    ) + receipt_spec(amount, terms.multiplier) > u64::MAX {
                        Err(Error::ArithmeticOverflow)
                    } else {
                        Ok(receipt_spec(amount, terms.multiplier) as u64)
                    },
                }
            },
        }
    }
}

/// What an exchange comes to, before anything is changed: the first
/// failure of the three steps, or the units issued.
pub open spec fn exchange_spec(
    market: Market,
    terms: TermsView,
    payer: Signer,
    bump: u8,
    amount: u64,
) -> Result<u64, Error> {
    match transfer_step(market, terms, payer, amount) {
        Err(e) => Err(e),
        Ok(()) => match destination_step(market, terms, payer) {
            Err(e) => Err(e),
            Ok(()) => issue_step(market, terms, bump, amount),
        },
    }
}

/// The holding that the units are added to: the one at the destination,
/// or a new and empty one of the payer.
pub open spec fn holding_before(market: Market, parties: Parties, payer: Signer) -> StateRecord<
    Holding,
> {
    if market.holdings.contains(parties.destination@) {
        market.holdings.record_at(parties.destination@)
    } else {
        StateRecord {
            owner_component: parties.token_component,
            authority: payer.key,
            payload: Holding { resource: parties.resource, owner: payer.key, amount: 0 },
            capacity: HOLDING_SPACE,
        }
    }
}

/// What a successful exchange of `amount` for `units` changes: the amount
/// moved from the payer to the treasury, the destination holds `units` more
/// and exists, the supply of the resource grew by `units`, and nothing else
/// differs.
pub open spec fn exchanged(
    before: Market,
    after: Market,
    terms: Parties,
    payer: Signer,
    amount: u64,
    units: u64,
) -> bool {
    &&& forall|a: Seq<u8>|
        #![trigger after.ledger.balance_of(a)]
        after.ledger.balance_of(a) == before.ledger.moved(payer.key@, terms.treasury@, amount, a)
    &&& after.holdings@ == before.holdings@.insert(
        terms.destination@,
        with_payload(
            holding_before(before, terms, payer),
            Holding {
                resource: holding_before(before, terms, payer).payload.resource,
                owner: holding_before(before, terms, payer).payload.owner,
                amount: (holding_before(before, terms, payer).payload.amount + units) as u64,
            },
        ),
    )
    &&& after.resources@ == before.resources@.insert(
        terms.resource@,
        with_payload(
            before.resources.record_at(terms.resource@),
            Resource {
                supply: (before.resources.record_at(terms.resource@).payload.supply + units) as u64,
            },
        ),
    )
}

/// A payer who holds less than the amount gets `InsufficientFunds`, whatever
/// else the request holds; the exchange then changes nothing.
pub proof fn lemma_exchange_needs_funds(
    market: Market,
    terms: TermsView,
    payer: Signer,
    bump: u8,
    amount: u64,
)
    requires
        has_signed(payer),
        market.ledger.balance_of(payer.key@) < amount,
    ensures
        exchange_spec(market, terms, payer, bump, amount) == Err::<u64, Error>(
            Error::InsufficientFunds,
        ),
{
}

/// A successful exchange is exact: the units are the amount times the
/// multiplier, the payer holds the amount less and the treasury the amount
/// more, the destination exists and holds the units more, and the supply of
/// the resource grew by the units.
pub proof fn lemma_exchange_is_exact(
    before: Market,
    after: Market,
    terms: Terms,
    payer: Signer,
    bump: u8,
    amount: u64,
    units: u64,
)
    requires
        exchange_spec(before, terms@, payer, bump, amount) == Ok::<u64, Error>(units),
        exchanged(before, after, terms.parties(), payer, amount, units),
        payer.key@ != terms.treasury@,
    ensures
        units == amount * terms.multiplier,
        after.ledger.balance_of(payer.key@) == before.ledger.balance_of(payer.key@) - amount,
        after.ledger.balance_of(terms.treasury@) == before.ledger.balance_of(terms.treasury@)
            + amount,
        after.holdings.contains(terms.destination@),
        after.holdings.record_at(terms.destination@).payload.amount == held_before(before, terms@)
            + units,
        after.holdings.record_at(terms.destination@).payload.owner@ == payer.key@,
        after.holdings.record_at(terms.destination@).payload.resource@ == terms.resource@,
        after.resources.record_at(terms.resource@).payload.supply == before.resources.record_at(
            terms.resource@,
        ).payload.supply + units,
{
    assert(after.holdings@.dom().contains(terms.destination@));
    assert(after.holdings@[terms.destination@] == after.holdings.record_at(terms.destination@));
    assert(after.resources@.dom().contains(terms.resource@));
    assert(after.resources@[terms.resource@] == after.resources.record_at(terms.resource@));
}

impl Market {
    /// Well-formedness of all three parts.
    pub open spec fn wf(&self) -> bool {
        self.ledger.wf() && self.holdings.wf() && self.resources.wf()
    }

    /// A market without value, holdings or resources.
    pub fn new() -> (market: Market)
        ensures
            market.wf(),
            forall|a: Seq<u8>| market.ledger.balance_of(a) == 0,
            market.holdings@ == Map::<Seq<u8>, StateRecord<Holding>>::empty(),
            market.resources@ == Map::<Seq<u8>, StateRecord<Resource>>::empty(),
    {
        Market { ledger: Ledger::new(), holdings: Store::new(), resources: Store::new() }
    }
}

/// The units that `amount` of value buys, if the number stays in range.
pub fn receipt(amount: u64, multiplier: u64) -> (units: Option<u64>)
    ensures
        units == if receipt_spec(amount, multiplier) <= u64::MAX {
            Some(receipt_spec(amount, multiplier) as u64)
        } else {
            None
        },
{
    amount.checked_mul(multiplier)
}

/// Exchanges `amount` of the payer's value for units of the resource.
///
/// Fails with `Unauthorized` when the payer did not sign or the treasury is
/// not the identity derived for the resource, with `InsufficientFunds` when
/// the payer holds less than `amount`, with `RecordCreationFailed` when the
/// destination is not the address derived for the payer and the resource or
/// holds something else, with `DerivationExhausted` when nothing derives,
/// with `UnauthorizedDelegation` when the bump is not the one of the
/// derivation or the resource is under another authority, with
/// `TargetUnavailable` when the token component has no such resource, and
/// with `ArithmeticOverflow` when a number would leave its range. On
/// failure the market is unchanged.
pub fn exchange(market: &mut Market, terms: &Terms, payer: &Signer, bump: u8, amount: u64) -> (r:
    Result<u64, Error>)
    requires
        old(market).wf(),
    ensures
        final(market).wf(),
        r == exchange_spec(*old(market), terms@, *payer, bump, amount),
        r matches Ok(units) ==> exchanged(
            *old(market),
            *final(market),
            terms.parties(),
            *payer,
            amount,
            units,
        ),
        r is Err ==> *final(market) == *old(market),
{
    // Step one, decided: the payment.
    match require_signature(payer) {
        Ok(()) => {},
        Err(e) => {
            return Err(e);
        },
    }
    if market.ledger.balance(&payer.key) < amount {
        return Err(Error::InsufficientFunds);
    }
    if !payer.key.same(&terms.treasury) && market.ledger.balance(&terms.treasury).checked_add(
        amount,
    ).is_none() {
        return Err(Error::ArithmeticOverflow);
    }
    // Step two, decided: the destination.
    let mut seeds: Vec<Vec<u8>> = Vec::new();
    seeds.push(terms.token_component.to_vec());
    seeds.push(terms.resource.to_vec());
    assert(crate::deriver::views(seeds@) =~= seq![terms.token_component@, terms.resource@]);
    if require_bound(
        &terms.holder_component,
        payer.key.to_vec().as_slice(),
        &seeds,
        &terms.destination,
    ).is_err() {
        return Err(Error::RecordCreationFailed);
    }
    let held = match market.holdings.find(&terms.destination) {
        Some(h) => {
            let existing = market.holdings.record(h);
            if !existing.owner_component.same(&terms.token_component)
                || !existing.payload.resource.same(&terms.resource) || !existing.payload.owner.same(
                &payer.key,
            ) {
                return Err(Error::RecordCreationFailed);
            }
            existing.payload.amount
        },
        None => 0,
    };
    // Step three, decided: the issue on behalf of the treasury.
    let units = match receipt(amount, terms.multiplier) {
        Some(units) => units,
        None => {
            return Err(Error::ArithmeticOverflow);
        },
    };
    let capability = match Capability::establish(
        &terms.component,
        terms.label.as_slice(),
        &identity_seed(&terms.resource),
    ) {
        Ok(c) => c,
        Err(e) => {
            return Err(e);
        },
    };
    if !capability.identity.same(&terms.treasury) {
        return Err(Error::Unauthorized);
    }
    let delegation = match capability.delegation(bump) {
        Ok(d) => d,
        Err(e) => {
            return Err(e);
        },
    };
    let resource = match authorize(
        &market.resources,
        &terms.token_component,
        &terms.resource,
        &delegation,
    ) {
        Ok(h) => h,
        Err(e) => {
            return Err(e);
        },
    };
    let supply = match market.resources.record(resource).payload.supply.checked_add(units) {
        Some(supply) => supply,
        None => {
            return Err(Error::ArithmeticOverflow);
        },
    };
    let total = match held.checked_add(units) {
        Some(total) => total,
        None => {
            return Err(Error::ArithmeticOverflow);
        },
    };
    // All three steps are decided; now they are carried out.
    match market.ledger.move_value(&payer.key, &terms.treasury, amount) {
        Ok(()) => {},
        Err(e) => {
            return Err(e);
        },
    }
    let destination = match market.holdings.create_if_absent(
        &terms.destination,
        &terms.token_component,
        &payer.key,
        Holding { resource: terms.resource, owner: payer.key, amount: 0 },
        HOLDING_SPACE,
    ) {
        Ok((h, _)) => h,
        Err(e) => {
            return Err(e);
        },
    };
    let ghost base = holding_before(*old(market), terms.parties(), *payer);
    let ghost lazily = market.holdings;
    proof {
        if !old(market).holdings.contains(terms.destination@) {
            old(market).holdings.lemma_created(lazily, terms.destination@, base);
        }
        assert(lazily.contains(terms.destination@));
        assert(lazily.record_at(terms.destination@) == base);
    }
    let existing = market.holdings.record(destination).payload;
    match market.holdings.put(
        destination,
        Holding { resource: existing.resource, owner: existing.owner, amount: total },
    ) {
        Ok(()) => {},
        Err(e) => {
            return Err(e);
        },
    }
    match market.resources.put(resource, Resource { supply: supply }) {
        Ok(()) => {},
        Err(e) => {
            return Err(e);
        },
    }
    proof {
        assert(final(market).holdings@ =~= old(market).holdings@.insert(
            terms.destination@,
            with_payload(
                base,
                Holding { resource: base.payload.resource, owner: base.payload.owner, amount: total },
            ),
        ));
    }
    Ok(units)
}

} // verus!
