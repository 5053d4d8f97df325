use anchor_lang::prelude::Pubkey;
use derived_authority::deriver::off_key_space;
use derived_authority::error::Error;
use derived_authority::exchange::{
    exchange, receipt, Holding, Ledger, Market, Resource, Terms, HOLDING_SPACE, RESOURCE_SPACE,
};
use derived_authority::identity::{Identity, Signer};
use derived_authority::request::Context;
use derived_authority::token_sale::{
    mint_authority_label_bytes, purchase, terms, Purchase, TOKENS_PER_UNIT,
};

fn id(n: u8) -> Identity {
    Identity::new([n; 32])
}

fn buyer(n: u8) -> Identity {
    let mut bytes = [0u8; 32];
    bytes[0] = n;
    for k in 0..=255u8 {
        bytes[1] = k;
        let candidate = Identity::new(bytes);
        if !off_key_space(&candidate) {
            return candidate;
        }
    }
    panic!("no key found");
}

fn sale() -> Identity {
    id(0xE0)
}

fn token_program() -> Identity {
    id(0xE1)
}

fn associated_token_program() -> Identity {
    id(0xE2)
}

fn mint() -> Identity {
    id(0xE3)
}

fn mint_authority() -> (Identity, u8) {
    derived_authority::deriver::derive(&sale(), b"MINT_AUTHORITY", &vec![mint().to_vec()]).unwrap()
}

fn holding_address(owner: &Identity) -> Identity {
    let seeds = vec![token_program().to_vec(), mint().to_vec()];
    derived_authority::deriver::derive(&associated_token_program(), &owner.to_vec(), &seeds)
        .unwrap()
        .0
}

fn request(payer: &Identity) -> Context<Purchase> {
    Context {
        program_id: sale(),
        accounts: Purchase {
            payer: Signer { key: *payer, signed: true },
            token_account: holding_address(payer),
            mint_authority: mint_authority().0,
            mint: mint(),
            token_program: token_program(),
            system_program: Identity::zero(),
            associated_token_program: associated_token_program(),
        },
    }
}

/// A market with the mint in place and `balance` in the payer's wallet.
fn market_with(payer: &Identity, balance: u64) -> Market {
    let mut market = Market::new();
    market
        .resources
        .create(&mint(), &token_program(), &mint_authority().0, Resource { supply: 0 }, RESOURCE_SPACE)
        .unwrap();
    assert_eq!(market.ledger.deposit(payer, balance), Ok(()));
    market
}

fn held(market: &Market, owner: &Identity) -> Option<Holding> {
    market.holdings.find(&holding_address(owner)).map(|h| market.holdings.record(h).payload)
}

fn supply(market: &Market) -> u64 {
    market.resources.record(market.resources.find(&mint()).unwrap()).payload.supply
}

#[test]
fn ledger_moves_value() {
    let mut ledger = Ledger::new();
    assert_eq!(ledger.balance(&id(1)), 0);
    assert_eq!(ledger.deposit(&id(1), 100), Ok(()));
    assert_eq!(ledger.move_value(&id(1), &id(2), 30), Ok(()));
    assert_eq!(ledger.balance(&id(1)), 70);
    assert_eq!(ledger.balance(&id(2)), 30);
    assert_eq!(ledger.move_value(&id(1), &id(2), 71), Err(Error::InsufficientFunds));
    assert_eq!(ledger.move_value(&id(3), &id(2), 1), Err(Error::InsufficientFunds));
    assert_eq!(ledger.move_value(&id(1), &id(1), 70), Ok(()));
    assert_eq!(ledger.move_value(&id(1), &id(1), 71), Err(Error::InsufficientFunds));
    assert_eq!(ledger.move_value(&id(3), &id(4), 0), Ok(()));
    assert_eq!(ledger.balance(&id(1)), 70);
    assert_eq!(ledger.balance(&id(2)), 30);
}

#[test]
fn ledger_refuses_to_overflow() {
    let mut ledger = Ledger::new();
    assert_eq!(ledger.deposit(&id(1), u64::MAX), Ok(()));
    assert_eq!(ledger.deposit(&id(1), 1), Err(Error::ArithmeticOverflow));
    assert_eq!(ledger.deposit(&id(2), 1), Ok(()));
    assert_eq!(ledger.move_value(&id(2), &id(1), 1), Err(Error::ArithmeticOverflow));
    assert_eq!(ledger.balance(&id(1)), u64::MAX);
    assert_eq!(ledger.balance(&id(2)), 1);
}

#[test]
fn receipt_is_a_fixed_multiple() {
    assert_eq!(receipt(30, 5), Some(150));
    assert_eq!(receipt(0, 5), Some(0));
    assert_eq!(receipt(u64::MAX / 5, 5), Some(u64::MAX));
    assert_eq!(receipt(u64::MAX / 5 + 1, 5), None);
    assert_eq!(TOKENS_PER_UNIT, 5);
    assert_eq!(HOLDING_SPACE, 80);
    assert_eq!(RESOURCE_SPACE, 16);
}

#[test]
fn atomic_exchange() {
    let payer = buyer(1);
    let mut market = market_with(&payer, 100);
    let (treasury, bump) = mint_authority();
    assert_eq!(purchase(&mut market, &request(&payer), bump, 30), Ok(()));
    assert_eq!(market.ledger.balance(&payer), 70);
    assert_eq!(market.ledger.balance(&treasury), 30);
    assert_eq!(held(&market, &payer), Some(Holding { resource: mint(), owner: payer, amount: 150 }));
    assert_eq!(supply(&market), 150);
    let record = market.holdings.record(market.holdings.find(&holding_address(&payer)).unwrap());
    assert_eq!(record.owner_component, token_program());
    assert_eq!(record.authority, payer);
    assert_eq!(record.capacity, HOLDING_SPACE);
}

#[test]
fn exchange_without_funds_changes_nothing() {
    let payer = buyer(1);
    let mut market = market_with(&payer, 100);
    let (treasury, bump) = mint_authority();
    assert_eq!(purchase(&mut market, &request(&payer), bump, 150), Err(Error::InsufficientFunds));
    assert_eq!(market.ledger.balance(&payer), 100);
    assert_eq!(market.ledger.balance(&treasury), 0);
    assert_eq!(held(&market, &payer), None);
    assert_eq!(market.holdings.len(), 0);
    assert_eq!(supply(&market), 0);
}

#[test]
fn a_second_purchase_adds_to_the_same_holding() {
    let payer = buyer(1);
    let mut market = market_with(&payer, 100);
    let (treasury, bump) = mint_authority();
    assert_eq!(purchase(&mut market, &request(&payer), bump, 30), Ok(()));
    assert_eq!(purchase(&mut market, &request(&payer), bump, 20), Ok(()));
    assert_eq!(market.ledger.balance(&payer), 50);
    assert_eq!(market.ledger.balance(&treasury), 50);
    assert_eq!(held(&market, &payer).unwrap().amount, 250);
    assert_eq!(market.holdings.len(), 1);
    assert_eq!(supply(&market), 250);
}

#[test]
fn exchange_returns_the_units() {
    let payer = buyer(1);
    let mut market = market_with(&payer, 100);
    let (_, bump) = mint_authority();
    let terms = terms(&request(&payer));
    let signer = Signer { key: payer, signed: true };
    assert_eq!(exchange(&mut market, &terms, &signer, bump, 7), Ok(35));
    let doubled = Terms { multiplier: 2, ..terms };
    assert_eq!(exchange(&mut market, &doubled, &signer, bump, 7), Ok(14));
    assert_eq!(held(&market, &payer).unwrap().amount, 49);
    assert_eq!(market.ledger.balance(&payer), 86);
}

#[test]
fn purchase_reports_each_failure() {
    let payer = buyer(1);
    let mut market = market_with(&payer, 100);
    let (treasury, bump) = mint_authority();
    let good = request(&payer);
    let change = |edit: &dyn Fn(&mut Purchase)| {
        let mut ctx = request(&payer);
        edit(&mut ctx.accounts);
        ctx
    };
    let unsigned = change(&|a| a.payer.signed = false);
    assert_eq!(purchase(&mut market, &unsigned, bump, 30), Err(Error::Unauthorized));
    let misplaced = change(&|a| a.token_account = id(5));
    assert_eq!(purchase(&mut market, &misplaced, bump, 30), Err(Error::RecordCreationFailed));
    let others = change(&|a| a.token_account = holding_address(&buyer(2)));
    assert_eq!(purchase(&mut market, &others, bump, 30), Err(Error::RecordCreationFailed));
    let wrong_treasury = change(&|a| a.mint_authority = id(6));
    assert_eq!(purchase(&mut market, &wrong_treasury, bump, 30), Err(Error::Unauthorized));
    assert_eq!(
        purchase(&mut market, &good, bump.wrapping_sub(1), 30),
        Err(Error::UnauthorizedDelegation)
    );
    let other_program = Context { program_id: id(0xE9), accounts: request(&payer).accounts };
    assert_eq!(purchase(&mut market, &other_program, bump, 30), Err(Error::Unauthorized));
    assert_eq!(market.ledger.balance(&payer), 100);
    assert_eq!(market.ledger.balance(&treasury), 0);
    assert_eq!(market.holdings.len(), 0);
    assert_eq!(supply(&market), 0);
}

#[test]
fn purchase_needs_the_mint() {
    let payer = buyer(1);
    let mut market = Market::new();
    assert_eq!(market.ledger.deposit(&payer, 100), Ok(()));
    let (_, bump) = mint_authority();
    assert_eq!(purchase(&mut market, &request(&payer), bump, 30), Err(Error::TargetUnavailable));
    market
        .resources
        .create(&mint(), &token_program(), &id(7), Resource { supply: 0 }, RESOURCE_SPACE)
        .unwrap();
    assert_eq!(
        purchase(&mut market, &request(&payer), bump, 30),
        Err(Error::UnauthorizedDelegation)
    );
    assert_eq!(market.ledger.balance(&payer), 100);
    assert_eq!(market.holdings.len(), 0);
}

#[test]
fn purchase_refuses_to_overflow() {
    let payer = buyer(1);
    let mut market = market_with(&payer, u64::MAX);
    let (_, bump) = mint_authority();
    assert_eq!(
        purchase(&mut market, &request(&payer), bump, u64::MAX / 5 + 1),
        Err(Error::ArithmeticOverflow)
    );
    assert_eq!(purchase(&mut market, &request(&payer), bump, u64::MAX / 5), Ok(()));
    assert_eq!(purchase(&mut market, &request(&payer), bump, 1), Err(Error::ArithmeticOverflow));
    assert_eq!(market.ledger.balance(&payer), u64::MAX - u64::MAX / 5);
    assert_eq!(supply(&market), u64::MAX);
}

#[test]
fn purchase_rejects_a_destination_that_holds_something_else() {
    let payer = buyer(1);
    let mut market = market_with(&payer, 100);
    let (_, bump) = mint_authority();
    market
        .holdings
        .create(
            &holding_address(&payer),
            &token_program(),
            &payer,
            Holding { resource: id(8), owner: payer, amount: 1 },
            HOLDING_SPACE,
        )
        .unwrap();
    assert_eq!(
        purchase(&mut market, &request(&payer), bump, 30),
        Err(Error::RecordCreationFailed)
    );
    assert_eq!(market.ledger.balance(&payer), 100);
    assert_eq!(held(&market, &payer).unwrap().amount, 1);
}

#[test]
fn the_contexts_of_a_purchase_name_its_parties() {
    let payer = buyer(1);
    let accounts = request(&payer).accounts;
    let payment = accounts.get_sol_transfer_ctx();
    assert_eq!(payment.program, Identity::zero());
    assert_eq!(payment.accounts.from, payer);
    assert_eq!(payment.accounts.to, mint_authority().0);
    let issue = accounts.get_mint_ctx();
    assert_eq!(issue.program, token_program());
    assert_eq!(issue.accounts.mint, mint());
    assert_eq!(issue.accounts.to, holding_address(&payer));
    assert_eq!(issue.accounts.authority, mint_authority().0);
}

#[test]
fn holdings_derive_as_associated_addresses_do() {
    let payer = buyer(1);
    let (expected, _) = Pubkey::find_program_address(
        &[&payer.to_bytes(), &token_program().to_bytes(), &mint().to_bytes()],
        &Pubkey::new_from_array(associated_token_program().to_bytes()),
    );
    assert_eq!(holding_address(&payer).to_bytes(), expected.to_bytes());
}

#[test]
fn mint_authority_label_spells_its_words() {
    assert_eq!(mint_authority_label_bytes(), b"MINT_AUTHORITY".to_vec());
}
