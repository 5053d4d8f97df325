//! A token sale: whoever pays value to the mint's derived authority gets
//! five times as many tokens, issued on behalf of that authority.

use vstd::prelude::*;
use crate::error::Error;
use crate::exchange::{
    exchange, exchange_spec, exchanged, Market, Parties, Terms, TermsView,
};
use crate::identity::{Identity, Signer};
use crate::request::Context;

verus! {

/// The identities of a purchase.
pub struct Purchase {
    /// Who pays, and gets the tokens.
    pub payer: Signer,
    /// The address of the payer's token holding.
    pub token_account: Identity,
    /// The identity derived for the mint: it takes the payment and issues.
    pub mint_authority: Identity,
    /// The address of the mint.
    pub mint: Identity,
    /// The component that owns mints and holdings.
    pub token_program: Identity,
    /// The component that moves value.
    pub system_program: Identity,
    /// The component under whose address holdings derive.
    pub associated_token_program: Identity,
}

/// The identities of a movement of value.
#[derive(Clone, Copy, Debug)]
pub struct Transfer {
    pub from: Identity,
    pub to: Identity,
}

/// The identities of an issue of tokens.
#[derive(Clone, Copy, Debug)]
pub struct MintTo {
    pub mint: Identity,
    pub to: Identity,
    pub authority: Identity,
}

/// A call of another component: the component, and the identities handed to it.
#[derive(Clone, Copy, Debug)]
pub struct CpiContext<A> {
    pub program: Identity,
    pub accounts: A,
}

/// Tokens issued per unit of value paid.
pub const TOKENS_PER_UNIT: u64 = 5;

/// The label of a mint's authority: the bytes of `MINT_AUTHORITY`.
pub open spec fn mint_authority_label() -> Seq<u8> {
    seq![
        77u8, 73u8, 78u8, 84u8, 95u8, 65u8, 85u8, 84u8, 72u8, 79u8, 82u8, 73u8, 84u8, 89u8,
    ]
}

/// The terms of the sale that a purchase is made on.
pub open spec fn terms_spec(ctx: Context<Purchase>) -> TermsView {
    TermsView {
        component: ctx.program_id@,
        label: mint_authority_label(),
        resource: ctx.accounts.mint@,
        treasury: ctx.accounts.mint_authority@,
        token_component: ctx.accounts.token_program@,
        holder_component: ctx.accounts.associated_token_program@,
        destination: ctx.accounts.token_account@,
        multiplier: TOKENS_PER_UNIT,
    }
}

/// The identities that a purchase is between, besides the payer.
pub open spec fn parties_spec(ctx: Context<Purchase>) -> Parties {
    Parties {
        resource: ctx.accounts.mint,
        treasury: ctx.accounts.mint_authority,
        token_component: ctx.accounts.token_program,
        destination: ctx.accounts.token_account,
    }
}

/// What a purchase comes to, before anything is changed.
pub open spec fn purchase_spec(
    market: Market,
    ctx: Context<Purchase>,
    mint_authority_bump: u8,
    amount: u64,
) -> Result<(), Error> {
    match exchange_spec(market, terms_spec(ctx), ctx.accounts.payer, mint_authority_bump, amount) {
        Ok(_) => Ok(()),
        Err(e) => Err(e),
    }
}

impl Purchase {
    /// The movement of the payment: from the payer to the mint's authority.
    pub fn get_sol_transfer_ctx(&self) -> (cpi: CpiContext<Transfer>)
        ensures
            cpi.program == self.system_program,
            cpi.accounts.from == self.payer.key,
            cpi.accounts.to == self.mint_authority,
    {
        CpiContext {
            program: self.system_program,
            accounts: Transfer { from: self.payer.key, to: self.mint_authority },
        }
    }

    /// The issue of the tokens: of the mint, to the payer's holding, on
    /// behalf of the mint's authority.
    pub fn get_mint_ctx(&self) -> (cpi: CpiContext<MintTo>)
        ensures
            cpi.program == self.token_program,
            cpi.accounts.mint == self.mint,
            cpi.accounts.to == self.token_account,
            cpi.accounts.authority == self.mint_authority,
    {
        CpiContext {
            program: self.token_program,
            accounts: MintTo {
                mint: self.mint,
                to: self.token_account,
                authority: self.mint_authority,
            },
        }
    }
}

/// The label of a mint's authority.
pub fn mint_authority_label_bytes() -> (label: Vec<u8>)
    ensures
        label@ == mint_authority_label(),
{
    let label: Vec<u8> = vec![
        77u8, 73u8, 78u8, 84u8, 95u8, 65u8, 85u8, 84u8, 72u8, 79u8, 82u8, 73u8, 84u8, 89u8,
    ];
    assert(label@ =~= mint_authority_label());
    label
}

/// The terms of the sale that a purchase is made on.
pub fn terms(ctx: &Context<Purchase>) -> (terms: Terms)
    ensures
        terms@ == terms_spec(*ctx),
        terms.parties() == parties_spec(*ctx),
{
    let payment = ctx.accounts.get_sol_transfer_ctx();
    let issue = ctx.accounts.get_mint_ctx();
    Terms {
        component: ctx.program_id,
        label: mint_authority_label_bytes(),
        resource: issue.accounts.mint,
        treasury: payment.accounts.to,
        token_component: issue.program,
        holder_component: ctx.accounts.associated_token_program,
        destination: issue.accounts.to,
        multiplier: TOKENS_PER_UNIT,
    }
}

/// Sells tokens: moves `amount` of the payer's value to the mint's
/// authority, makes sure the payer's holding exists, and issues five times
/// `amount` tokens to it on behalf of the mint's authority.
///
/// Fails as the exchange does; on failure the market is unchanged.
pub fn purchase(
    market: &mut Market,
    ctx: &Context<Purchase>,
    mint_authority_bump: u8,
    amount: u64,
) -> (r: Result<(), Error>)
    requires
        old(market).wf(),
    ensures
        final(market).wf(),
        r == purchase_spec(*old(market), *ctx, mint_authority_bump, amount),
        r is Ok ==> amount * TOKENS_PER_UNIT <= u64::MAX && exchanged(
            *old(market),
            *final(market),
            parties_spec(*ctx),
            ctx.accounts.payer,
            amount,
            (amount * TOKENS_PER_UNIT) as u64,
        ),
        r is Err ==> *final(market) == *old(market),
{
    let terms = terms(ctx);
    match exchange(market, &terms, &ctx.accounts.payer, mint_authority_bump, amount) {
        Ok(units) => Ok(()),
        Err(e) => Err(e),
    }
}

} // verus!
