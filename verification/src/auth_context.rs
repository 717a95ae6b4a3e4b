use vstd::prelude::*;

verus! {

/// Settings used to sign Macro API tokens.
///
/// The issuer and the private key are held by their values: reading them from
/// the environment or from a secrets store happens where the service starts.
#[derive(Debug, Clone)]
pub struct MacroApiTokenContext {
    /// The issuer of the macro-api-token.
    pub issuer: String,
    /// The private key used to sign macro-api tokens.
    pub macro_api_token_private_key: String,
    /// The token expiry duration in seconds.
    pub expiry_seconds: usize,
}

/// The pair of tokens handed to a signed-in client.
#[derive(Debug, Clone)]
pub struct TokenContext {
    /// The access token.
    pub access_token: String,
    /// The refresh token.
    pub refresh_token: String,
}

} // verus!
