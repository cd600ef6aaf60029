//! The module as its callers see it, and the events that it raises.
//!
//! A method that leaves the process has two spellings. `<method>` waits for its
//! replies and answers directly; `start_<method>` answers a job id at once, and
//! the answer that its twin would have given is collected with `take_result`.

use vstd::prelude::*;

verus! {

/// The methods of the module, to be implemented by the host around the library.
pub trait WalletBackendModule: Send + 'static {
    /// Replace the proxy settings; `false` where they cannot be read.
    fn set_proxy_config(&mut self, proxy_json: String) -> bool;

    /// `{ ok, proxy }`.
    fn get_proxy_config(&mut self) -> String;

    /// Replace the configured chains; `false` where they cannot be read.
    fn set_chains(&mut self, chains_json: String) -> bool;

    /// `{ ok, chains }`.
    fn get_chains(&mut self) -> String;

    /// Ask whether the configured endpoint really is this chain.
    fn test_endpoint(&mut self, chain_id: i64) -> String;

    /// Import a mnemonic into the keystore and label the account it answers.
    fn import_mnemonic(&mut self, phrase_json: String, label: String) -> String;

    /// The keystore's accounts.
    fn list_accounts(&mut self) -> String;

    /// Drive a parked signing request forward: `{ ok, state, hash?, reason? }`.
    /// `state` is `awaiting_approval` until a human decides.
    fn send_status(&mut self, request_id: String) -> String;

    /// Watch the tokens of a JSON array of addresses on a chain.
    fn set_watched_tokens(&mut self, chain_id: i64, addresses_json: String) -> bool;

    /// `{ ok, tokens }`.
    fn get_watched_tokens(&mut self, chain_id: i64) -> String;

    /// The token catalogue of a chain.
    fn get_tokens(&mut self, chain_id: i64) -> String;

    /// Add a token to the catalogue; `false` where that failed, or where the
    /// host cannot wait.
    fn add_custom_token(&mut self, token_json: String) -> bool;

    /// Read the balances of an account on every chain, and return at once.
    fn refresh_balances(&mut self, address: String) -> bool;

    /// `{ ok, balances }`, as of the last refresh.
    fn get_balances(&mut self, address: String) -> String;

    /// The holdings of an account and their prices, as of the last refresh.
    fn get_market(&mut self, address: String) -> String;

    /// Refresh the prices of what an account holds, and return at once.
    fn refresh_market(&mut self, address: String) -> bool;

    /// Quote the fee of a send.
    fn estimate_fee(&mut self, send_json: String) -> String;

    /// Build a native send and put it in front of a human:
    /// `{ ok, pending, requestId }`.
    fn send_native(&mut self, send_json: String) -> String;

    /// The same for a token transfer.
    fn send_erc20(&mut self, send_json: String) -> String;

    /// `{ ok, history }`.
    fn get_history(&mut self, address: String) -> String;

    /// Poll the receipt of a broadcast transaction and update its record.
    fn refresh_tx_status(&mut self, hash_hex: String, chain_id: i64) -> String;

    /// [`Self::test_endpoint`] without waiting.
    fn start_test_endpoint(&mut self, chain_id: i64) -> String;

    /// [`Self::import_mnemonic`] without waiting.
    fn start_import_mnemonic(&mut self, phrase_json: String, label: String) -> String;

    /// [`Self::list_accounts`] without waiting.
    fn start_list_accounts(&mut self) -> String;

    /// [`Self::get_tokens`] without waiting.
    fn start_get_tokens(&mut self, chain_id: i64) -> String;

    /// [`Self::add_custom_token`] without waiting: `{ ok, added }`.
    fn start_add_custom_token(&mut self, token_json: String) -> String;

    /// [`Self::estimate_fee`] without waiting.
    fn start_estimate_fee(&mut self, send_json: String) -> String;

    /// [`Self::send_native`] without waiting.
    fn start_send_native(&mut self, send_json: String) -> String;

    /// [`Self::send_erc20`] without waiting.
    fn start_send_erc20(&mut self, send_json: String) -> String;

    /// [`Self::send_status`] without waiting.
    fn start_send_status(&mut self, request_id: String) -> String;

    /// [`Self::refresh_tx_status`] without waiting.
    fn start_refresh_tx_status(&mut self, hash_hex: String, chain_id: i64) -> String;

    /// Collect a job: pending while its calls are in flight, then its answer,
    /// once.
    fn take_result(&mut self, job_id: String) -> String;

    /// The directory to keep files in is known.
    fn on_context_ready(&mut self, _instance_persistence_path: String) {
    }
}

/// The events that the module raises.
pub trait WalletBackendModuleEvents {
    /// New balances of an account can be read.
    fn balances_updated(&self, address: String);

    /// New prices of what an account holds can be read.
    fn market_updated(&self, address: String);

    /// A transaction has a new status.
    fn tx_status_changed(&self, hash_hex: String);

    /// The proxy failed.
    fn proxy_error(&self, context: String);
}

} // verus!
