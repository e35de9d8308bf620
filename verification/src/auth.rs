//! Who a client is: tokens, their claims, and what becomes of a token that is refused.
use jsonwebtoken::DecodingKey;
use serde_json::value::RawValue;
use serde_json::Value;
use std::collections::HashSet;
use vstd::prelude::*;
use vstd::utf8::encode_utf8;

use crate::config::Config;
use crate::json::json_member;
use crate::json::json_model;
use crate::json::json_tree;
use crate::json::optional_text;
use crate::json::parse_json;
use crate::json::read_json_member;
use crate::json::read_optional_text;
use crate::json::text_view;
use crate::json::JsonModel;
use crate::members::is_repeated;
use crate::members::member_names;
use crate::members::read_member_names;
use crate::members::repeats;
use crate::text::strip_prefix;

verus! {

/// Declares `jsonwebtoken::DecodingKey`.
#[verifier::external_type_specification]
#[verifier::external_body]
pub struct ExDecodingKey(jsonwebtoken::DecodingKey);

/// Declares `jsonwebtoken::errors::Error`.
#[verifier::external_type_specification]
#[verifier::external_body]
pub struct ExJwtError(jsonwebtoken::errors::Error);

/// The claims of a token. `sub` becomes the client's id; `tenant_id` scopes its topics and its
/// direct messages.
#[derive(Debug)]
pub struct Claims {
    pub sub: String,
    pub tenant_id: Option<String>,
    pub exp: i64,
    pub iss: Option<String>,
}

/// What claims say.
#[verifier::ext_equal]
pub struct ClaimsModel {
    pub sub: Seq<char>,
    pub tenant_id: Option<Seq<char>>,
    pub exp: i64,
    pub iss: Option<Seq<char>>,
}

impl View for Claims {
    type V = ClaimsModel;

    open spec fn view(&self) -> ClaimsModel {
        ClaimsModel {
            sub: self.sub@,
            tenant_id: text_view(self.tenant_id),
            exp: self.exp,
            iss: text_view(self.iss),
        }
    }
}

/// A client, as the server knows it.
#[derive(Debug)]
pub struct AuthIdentity {
    pub client_id: String,
    pub tenant_id: String,
}

/// Who an identity is.
#[verifier::ext_equal]
pub struct IdentityModel {
    pub client_id: Seq<char>,
    pub tenant_id: Seq<char>,
}

impl View for AuthIdentity {
    type V = IdentityModel;

    open spec fn view(&self) -> IdentityModel {
        IdentityModel { client_id: self.client_id@, tenant_id: self.tenant_id@ }
    }
}

impl Clone for AuthIdentity {
    /// The same identity.
    fn clone(&self) -> (r: AuthIdentity)
        ensures
            r@ == self@,
    {
        AuthIdentity { client_id: self.client_id.clone(), tenant_id: self.tenant_id.clone() }
    }
}

/// How tokens are signed.
#[derive(Clone, Copy, Debug, PartialEq, Eq, Structural)]
pub enum JwtAlgorithm {
    HS256,
    RS256,
    EdDSA,
}

/// The key that tokens are checked with.
pub enum Decoding {
    /// A shared secret.
    Hmac(DecodingKey),
    /// A public key, and the algorithm that it is for.
    Asymmetric(DecodingKey, JwtAlgorithm),
    /// A public key was named that cannot be read. No token is good enough.
    Unreadable,
}

/// Checks tokens.
pub struct AuthVerifier {
    pub decoding: Decoding,
    pub issuer: Option<String>,
}

/// Why a token is refused.
#[derive(Clone, Copy, Debug, PartialEq, Eq, Structural)]
pub enum AuthError {
    Invalid,
    Expired,
    IssuerMismatch,
}

/// Why the token library refuses a token, as far as it matters here.
#[derive(Clone, Copy, Debug, PartialEq, Eq, Structural)]
pub enum JwtFault {
    ExpiredSignature,
    InvalidIssuer,
    Other,
}

/// What a token is held to, besides its signature and that it says when it expires.
pub struct TokenRules {
    pub algorithm: JwtAlgorithm,
    /// The issuer that the token must not contradict.
    pub issuer: Option<String>,
    /// Whether a token whose time is up is refused.
    pub validate_exp: bool,
    /// Whether a token that is meant for an audience is refused.
    pub validate_aud: bool,
    /// By how many seconds the time of a token may be up.
    pub leeway: u64,
}

/// What rules demand.
#[verifier::ext_equal]
pub struct TokenRulesModel {
    pub algorithm: JwtAlgorithm,
    pub issuer: Option<Seq<char>>,
    pub validate_exp: bool,
    pub validate_aud: bool,
    pub leeway: u64,
}

impl View for TokenRules {
    type V = TokenRulesModel;

    open spec fn view(&self) -> TokenRulesModel {
        TokenRulesModel {
            algorithm: self.algorithm,
            issuer: text_view(self.issuer),
            validate_exp: self.validate_exp,
            validate_aud: self.validate_aud,
            leeway: self.leeway,
        }
    }
}

impl TokenRulesModel {
    /// Rules under which only the signature counts.
    pub open spec fn signature_only(self) -> TokenRulesModel {
        TokenRulesModel { issuer: None, validate_exp: false, validate_aud: false, ..self }
    }
}

/// The key that `DecodingKey::from_secret` makes.
pub uninterp spec fn hmac_key(secret: Seq<u8>) -> DecodingKey;

/// The key that `DecodingKey::from_rsa_pem` reads, where there is one.
pub uninterp spec fn rsa_pem_key(pem: Seq<u8>) -> Option<DecodingKey>;

/// The key that `DecodingKey::from_ec_pem` reads, where there is one.
pub uninterp spec fn ec_pem_key(pem: Seq<u8>) -> Option<DecodingKey>;

/// The key that `DecodingKey::from_ed_pem` reads, where there is one.
pub uninterp spec fn ed_pem_key(pem: Seq<u8>) -> Option<DecodingKey>;

/// The fault that `Error::kind` tells.
pub uninterp spec fn jwt_fault(e: jsonwebtoken::errors::Error) -> JwtFault;

/// What `jsonwebtoken::decode` comes to at a time `now`, in seconds since 1970: the text of the
/// claims, or a fault.
pub uninterp spec fn jwt_decoded(
    token: Seq<char>,
    key: DecodingKey,
    rules: TokenRulesModel,
    now: u64,
) -> Result<Seq<char>, JwtFault>;

/// `jsonwebtoken::DecodingKey::from_secret`. Claimed: the key depends on the secret alone.
pub assume_specification[ jsonwebtoken::DecodingKey::from_secret ](secret: &[u8]) -> (key:
    jsonwebtoken::DecodingKey)
    ensures
        key == hmac_key(secret@),
;

/// The key in a result, where it holds one.
pub open spec fn key_in(r: Result<DecodingKey, jsonwebtoken::errors::Error>) -> Option<
    DecodingKey,
> {
    match r {
        Ok(key) => Some(key),
        Err(_) => None,
    }
}

/// `jsonwebtoken::DecodingKey::from_rsa_pem`. Claimed: whether there is a key, and which, depends
/// on the bytes alone.
pub assume_specification[ jsonwebtoken::DecodingKey::from_rsa_pem ](key: &[u8]) -> (r: Result<
    jsonwebtoken::DecodingKey,
    jsonwebtoken::errors::Error,
>)
    ensures
        key_in(r) == rsa_pem_key(key@),
;

/// `jsonwebtoken::DecodingKey::from_ec_pem`. Claimed: whether there is a key, and which, depends
/// on the bytes alone.
pub assume_specification[ jsonwebtoken::DecodingKey::from_ec_pem ](key: &[u8]) -> (r: Result<
    jsonwebtoken::DecodingKey,
    jsonwebtoken::errors::Error,
>)
    ensures
        key_in(r) == ec_pem_key(key@),
;

/// `jsonwebtoken::DecodingKey::from_ed_pem`. Claimed: whether there is a key, and which, depends
/// on the bytes alone.
pub assume_specification[ jsonwebtoken::DecodingKey::from_ed_pem ](key: &[u8]) -> (r: Result<
    jsonwebtoken::DecodingKey,
    jsonwebtoken::errors::Error,
>)
    ensures
        key_in(r) == ed_pem_key(key@),
;

/// Calls `jsonwebtoken::errors::Error::kind`. Claimed: the kind depends on the error alone.
#[verifier::external_body]
pub(crate) fn fault_of(e: &jsonwebtoken::errors::Error) -> (r: JwtFault)
    ensures
        r == jwt_fault(*e),
{
    match e.kind() {
        jsonwebtoken::errors::ErrorKind::ExpiredSignature => JwtFault::ExpiredSignature,
        jsonwebtoken::errors::ErrorKind::InvalidIssuer => JwtFault::InvalidIssuer,
        _ => JwtFault::Other,
    }
}

/// What a call of the token library came to.
pub open spec fn decode_outcome(r: Result<String, jsonwebtoken::errors::Error>) -> Result<
    Seq<char>,
    JwtFault,
> {
    match r {
        Ok(raw) => Ok(raw@),
        Err(e) => Err(jwt_fault(e)),
    }
}

/// The tree that a claim is, where there is such a claim. None where it is of no use: it is an object,
/// or holds a number beyond all bounds, say.
pub open spec fn claim(raw: Seq<char>, name: Seq<char>) -> Option<Option<Value>> {
    match json_member(raw, name) {
        Some(Some(text)) => if "{"@.is_prefix_of(text) {
            None
        } else {
            match json_tree(text) {
                Some(v) => Some(Some(v)),
                None => None,
            }
        },
        Some(None) => Some(None),
        None => None,
    }
}

/// The text of a claim that has to be there.
pub open spec fn text_claim(raw: Seq<char>, name: Seq<char>) -> Option<Seq<char>> {
    match claim(raw, name) {
        Some(Some(v)) => json_model(v).text(),
        _ => None,
    }
}

/// The integer of a claim that has to be there.
pub open spec fn integer_claim(raw: Seq<char>, name: Seq<char>) -> Option<i64> {
    match claim(raw, name) {
        Some(Some(v)) => json_model(v).integer(),
        _ => None,
    }
}

/// The text of a claim that may be left out, or be `null`. None where it is anything else.
pub open spec fn optional_claim(raw: Seq<char>, name: Seq<char>) -> Option<Option<Seq<char>>> {
    match claim(raw, name) {
        Some(v) => optional_text(v),
        None => None,
    }
}

/// What rules promise of claims that pass at `now`: the time they name is not up by more than
/// the leeway, and the issuer they name is the one asked for.
pub open spec fn claims_pass(raw: Seq<char>, rules: TokenRulesModel, now: u64) -> bool {
    let exp = integer_claim(raw, "exp"@);
    let iss = text_claim(raw, "iss"@);
    &&& rules.validate_exp ==> (exp matches Some(exp) ==> now <= exp + rules.leeway)
    &&& rules.issuer matches Some(issuer) ==> (iss matches Some(iss) ==> iss == issuer)
}

/// What rules make of the claims of a token that is signed as asked: first its time counts, then
/// its issuer, then its audience. None where a claim that counts is of an unusual shape: a time
/// that is no integer, an issuer or an audience that is no text.
pub open spec fn checked(raw: Seq<char>, rules: TokenRulesModel, now: u64) -> Option<
    Result<(), JwtFault>,
> {
    match integer_claim(raw, "exp"@) {
        None => None,
        Some(exp) => if rules.validate_exp && exp + rules.leeway < now {
            Some(Err(JwtFault::ExpiredSignature))
        } else {
            match optional_claim(raw, "iss"@) {
                None => None,
                Some(iss) => if rules.issuer is Some && iss is Some && iss != rules.issuer {
                    Some(Err(JwtFault::InvalidIssuer))
                } else {
                    match optional_claim(raw, "aud"@) {
                        None => None,
                        Some(aud) => if rules.validate_aud && aud is Some {
                            Some(Err(JwtFault::Other))
                        } else {
                            Some(Ok(()))
                        },
                    }
                },
            }
        },
    }
}

/// Whether a token that comes to `signed` where only its signature counts may come to `outcome`
/// under rules. One that is not signed as asked, or lacks a time, comes to no claims under any
/// rules; the claims of any other are the same under all of them, and are held to the rules.
pub open spec fn follows(
    outcome: Result<Seq<char>, JwtFault>,
    signed: Result<Seq<char>, JwtFault>,
    rules: TokenRulesModel,
    now: u64,
) -> bool {
    match signed {
        Err(_) => outcome == Err::<Seq<char>, JwtFault>(JwtFault::Other),
        Ok(raw) => {
            &&& outcome matches Ok(text) ==> text == raw
            &&& outcome is Ok ==> claims_pass(raw, rules, now)
            &&& checked(raw, rules, now) matches Some(verdict) ==> outcome == match verdict {
                Ok(_) => Ok(raw),
                Err(fault) => Err(fault),
            }
        },
    }
}

/// Calls `jsonwebtoken::decode` for the text of the claims, with the default validation for the
/// algorithm save for what the rules say. Claimed: at some time `now` the outcome depends on the
/// token, the key and the rules alone; it follows from what the token comes to where only its
/// signature counts, as `follows` says; a token is found expired only under rules that look at
/// that; an issuer is found wrong only under rules that name another; and where expiry does not
/// matter, neither does the time. The call takes the leeway off the clock and panics where the
/// clock shows less, so none is asked for. (It also panics where the clock is set before 1970.)
#[verifier::external_body]
pub(crate) fn decode_token(token: &str, key: &DecodingKey, rules: &TokenRules) -> (r: Result<
    String,
    jsonwebtoken::errors::Error,
>)
    requires
        rules.leeway == 0,
    ensures
        exists|now: u64|
            {
                &&& #[trigger] jwt_decoded(token@, *key, rules@, now) == decode_outcome(r)
                &&& follows(
                    decode_outcome(r),
                    jwt_decoded(token@, *key, rules@.signature_only(), now),
                    rules@,
                    now,
                )
            },
        r matches Err(e) ==> jwt_fault(e) == JwtFault::ExpiredSignature ==> rules.validate_exp,
        r matches Err(e) ==> jwt_fault(e) == JwtFault::InvalidIssuer ==> rules.issuer is Some,
        !rules.validate_exp ==> forall|now: u64|
            #[trigger] jwt_decoded(token@, *key, rules@, now) == decode_outcome(r),
{
    let mut validation = jsonwebtoken::Validation::new(match rules.algorithm {
        JwtAlgorithm::HS256 => jsonwebtoken::Algorithm::HS256,
        JwtAlgorithm::RS256 => jsonwebtoken::Algorithm::RS256,
        JwtAlgorithm::EdDSA => jsonwebtoken::Algorithm::EdDSA,
    });
    validation.iss = rules.issuer.clone().map(|issuer| HashSet::from([issuer]));
    validation.validate_exp = rules.validate_exp;
    validation.validate_aud = rules.validate_aud;
    validation.leeway = rules.leeway;
    jsonwebtoken::decode::<Box<RawValue>>(token, key, &validation)
        .map(|data| data.claims.get().to_owned())
}

/// The claims that a text holds: a text `sub`, an integer `exp`, and, where they are there and
/// not `null`, texts `tenant_id` and `iss`. None of them may come twice.
pub open spec fn claims_of_text(raw: Seq<char>) -> Option<ClaimsModel> {
    let names = member_names(raw);
    let sub = text_claim(raw, "sub"@);
    let tenant_id = optional_claim(raw, "tenant_id"@);
    let exp = integer_claim(raw, "exp"@);
    let iss = optional_claim(raw, "iss"@);
    if repeats(names, "sub"@) || repeats(names, "tenant_id"@) || repeats(names, "exp"@) || repeats(
        names,
        "iss"@,
    ) {
        None
    } else if sub is Some && tenant_id is Some && exp is Some && iss is Some {
        Some(ClaimsModel { sub: sub->0, tenant_id: tenant_id->0, exp: exp->0, iss: iss->0 })
    } else {
        None
    }
}

impl ClaimsModel {
    /// Who the bearer of the claims is.
    pub open spec fn identity(self) -> IdentityModel {
        IdentityModel {
            client_id: self.sub,
            tenant_id: match self.tenant_id {
                Some(tenant_id) => tenant_id,
                None => "default"@,
            },
        }
    }
}

/// What becomes of a token that was decoded to `strict` under all the rules. `lenient` is what it
/// is decoded to where only its signature counts: a token whose claims lack what they need is
/// invalid, whatever else is wrong with it.
pub open spec fn verdict(
    strict: Result<Seq<char>, JwtFault>,
    lenient: Result<Seq<char>, JwtFault>,
) -> Result<IdentityModel, AuthError> {
    match strict {
        Ok(raw) => match claims_of_text(raw) {
            Some(claims) => Ok(claims.identity()),
            None => Err(AuthError::Invalid),
        },
        Err(fault) => {
            let whole = lenient matches Ok(raw) && claims_of_text(raw) is Some;
            match fault {
                JwtFault::ExpiredSignature if whole => Err(AuthError::Expired),
                JwtFault::InvalidIssuer if whole => Err(AuthError::IssuerMismatch),
                _ => Err(AuthError::Invalid),
            }
        },
    }
}

/// The view of what became of a token.
pub open spec fn verdict_view(r: Result<AuthIdentity, AuthError>) -> Result<
    IdentityModel,
    AuthError,
> {
    match r {
        Ok(identity) => Ok(identity@),
        Err(e) => Err(e),
    }
}

/// Reads the tree that a claim is.
fn read_claim(raw: &str, name: &str) -> (r: Option<Option<Value>>)
    ensures
        r == claim(raw@, name@),
{
    match read_json_member(raw, name) {
        Ok(Some(text)) => {
            if strip_prefix(text.as_str(), "{").is_some() {
                return None;
            }
            match parse_json(text.as_str()) {
                Ok(v) => Some(Some(v)),
                Err(_) => None,
            }
        },
        Ok(None) => Some(None),
        Err(_) => None,
    }
}

/// Reads the text of a claim that may be left out.
fn read_optional_claim(raw: &str, name: &str) -> (r: Option<Option<String>>)
    ensures
        (match r {
            Some(text) => Some(text_view(text)),
            None => None,
        }) == optional_claim(raw@, name@),
{
    match read_claim(raw, name) {
        Some(Some(v)) => read_optional_text(Some(&v)),
        Some(None) => Some(None),
        None => None,
    }
}

/// Who the bearer of claims is.
pub fn identity_from_claims(claims: Claims) -> (r: AuthIdentity)
    ensures
        r@ == claims@.identity(),
        r.client_id@ == claims.sub@,
        r.tenant_id@ == (match claims.tenant_id {
            Some(tenant_id) => tenant_id@,
            None => "default"@,
        }),
{
    AuthIdentity {
        client_id: claims.sub,
        tenant_id: match claims.tenant_id {
            Some(tenant_id) => tenant_id,
            None => "default".to_owned(),
        },
    }
}

/// Reads claims from a text.
pub fn claims_from_text(raw: &str) -> (r: Option<Claims>)
    ensures
        (match r {
            Some(claims) => Some(claims@),
            None => None,
        }) == claims_of_text(raw@),
{
    let names = read_member_names(raw);
    if is_repeated(&names, "sub") || is_repeated(&names, "tenant_id") || is_repeated(&names, "exp")
        || is_repeated(&names, "iss") {
        return None;
    }
    let sub = match read_claim(raw, "sub") {
        Some(Some(v)) => match v.as_str() {
            Some(sub) => Some(sub.to_owned()),
            None => None,
        },
        _ => None,
    };
    let exp = match read_claim(raw, "exp") {
        Some(Some(v)) => v.as_i64(),
        _ => None,
    };
    let tenant_id = read_optional_claim(raw, "tenant_id");
    let iss = read_optional_claim(raw, "iss");
    match (sub, tenant_id, exp, iss) {
        (Some(sub), Some(tenant_id), Some(exp), Some(iss)) => Some(
            Claims { sub, tenant_id, exp, iss },
        ),
        _ => None,
    }
}

/// The view of what a token was decoded to.
pub open spec fn decoded_view(r: Result<String, JwtFault>) -> Result<Seq<char>, JwtFault> {
    match r {
        Ok(raw) => Ok(raw@),
        Err(fault) => Err(fault),
    }
}

/// Decides on a token from what it was decoded to.
pub fn judge(strict: Result<String, JwtFault>, lenient: Result<String, JwtFault>) -> (r: Result<
    AuthIdentity,
    AuthError,
>)
    ensures
        verdict_view(r) == verdict(decoded_view(strict), decoded_view(lenient)),
{
    match strict {
        Ok(raw) => match claims_from_text(raw.as_str()) {
            Some(claims) => Ok(identity_from_claims(claims)),
            None => Err(AuthError::Invalid),
        },
        Err(fault) => {
            let whole = match &lenient {
                Ok(raw) => claims_from_text(raw.as_str()).is_some(),
                Err(_) => false,
            };
            match fault {
                JwtFault::ExpiredSignature if whole => Err(AuthError::Expired),
                JwtFault::InvalidIssuer if whole => Err(AuthError::IssuerMismatch),
                _ => Err(AuthError::Invalid),
            }
        },
    }
}

impl AuthError {
    /// The error in words.
    pub open spec fn spec_message(self) -> Seq<char> {
        match self {
            AuthError::Invalid => "invalid token"@,
            AuthError::Expired => "token expired"@,
            AuthError::IssuerMismatch => "token issuer mismatch"@,
        }
    }

    /// The error in words.
    pub fn message(&self) -> (r: &'static str)
        ensures
            r@ == self.spec_message(),
    {
        match self {
            AuthError::Invalid => "invalid token",
            AuthError::Expired => "token expired",
            AuthError::IssuerMismatch => "token issuer mismatch",
        }
    }
}

impl Decoding {
    /// The key, where there is one.
    pub open spec fn key(self) -> Option<DecodingKey> {
        match self {
            Decoding::Hmac(key) => Some(key),
            Decoding::Asymmetric(key, _) => Some(key),
            Decoding::Unreadable => None,
        }
    }

    /// The algorithm that tokens have to be signed with.
    pub open spec fn algorithm(self) -> JwtAlgorithm {
        match self {
            Decoding::Hmac(_) => JwtAlgorithm::HS256,
            Decoding::Asymmetric(_, algorithm) => algorithm,
            Decoding::Unreadable => JwtAlgorithm::RS256,
        }
    }
}

/// The key that a PEM text holds: an RSA key, else an EC key, else an Ed25519 key. An Ed25519 key is
/// for EdDSA, any other for RS256.
pub open spec fn pem_decoding(pem: Seq<u8>) -> Decoding {
    match (rsa_pem_key(pem), ec_pem_key(pem), ed_pem_key(pem)) {
        (Some(key), _, _) => Decoding::Asymmetric(key, JwtAlgorithm::RS256),
        (None, Some(key), _) => Decoding::Asymmetric(key, JwtAlgorithm::RS256),
        (None, None, Some(key)) => Decoding::Asymmetric(key, JwtAlgorithm::EdDSA),
        (None, None, None) => Decoding::Unreadable,
    }
}

/// The key that a configuration names, where it names one. A secret comes before a public key.
pub open spec fn configured_decoding(secret: Option<Seq<char>>, pem: Option<Seq<char>>) -> Option<
    Decoding,
> {
    match (secret, pem) {
        (Some(secret), _) => Some(Decoding::Hmac(hmac_key(encode_utf8(secret)))),
        (None, Some(pem)) => Some(pem_decoding(encode_utf8(pem))),
        (None, None) => None,
    }
}

fn read_pem(pem: &str) -> (r: Decoding)
    ensures
        r == pem_decoding(encode_utf8(pem@)),
{
    match DecodingKey::from_rsa_pem(pem.as_bytes()) {
        Ok(key) => Decoding::Asymmetric(key, JwtAlgorithm::RS256),
        Err(_) => match DecodingKey::from_ec_pem(pem.as_bytes()) {
            Ok(key) => Decoding::Asymmetric(key, JwtAlgorithm::RS256),
            Err(_) => match DecodingKey::from_ed_pem(pem.as_bytes()) {
                Ok(key) => Decoding::Asymmetric(key, JwtAlgorithm::EdDSA),
                Err(_) => Decoding::Unreadable,
            },
        },
    }
}

impl AuthVerifier {
    /// What a token is held to.
    pub open spec fn strict_rules(self) -> TokenRulesModel {
        TokenRulesModel {
            algorithm: self.decoding.algorithm(),
            issuer: text_view(self.issuer),
            validate_exp: true,
            validate_aud: true,
            leeway: 0,
        }
    }

    /// What a token is decoded to at a time.
    pub open spec fn decoded_at(self, token: Seq<char>, now: u64) -> Result<Seq<char>, JwtFault> {
        match self.decoding.key() {
            Some(key) => jwt_decoded(token, key, self.strict_rules(), now),
            None => Err(JwtFault::Other),
        }
    }

    /// What a token is decoded to where only its signature counts.
    pub open spec fn signed_at(self, token: Seq<char>, now: u64) -> Result<Seq<char>, JwtFault> {
        match self.decoding.key() {
            Some(key) => jwt_decoded(token, key, self.strict_rules().signature_only(), now),
            None => Err(JwtFault::Other),
        }
    }

    /// What becomes of a token at a time.
    pub open spec fn verdict_at(self, token: Seq<char>, now: u64) -> Result<
        IdentityModel,
        AuthError,
    > {
        verdict(self.decoded_at(token, now), self.signed_at(token, now))
    }

    /// Whether `now` is a time at which a token can have been looked at: what it is decoded to then
    /// follows from its signature and the rules.
    pub open spec fn looked_at(self, token: Seq<char>, now: u64) -> bool {
        follows(
            self.decoded_at(token, now),
            self.signed_at(token, now),
            self.strict_rules(),
            now,
        )
    }

    /// Whether a token may be answered so: with what becomes of it at a time at which it was looked
    /// at.
    pub open spec fn may_answer(
        self,
        token: Seq<char>,
        answer: Result<IdentityModel, AuthError>,
    ) -> bool {
        exists|now: u64|
            {
                &&& #[trigger] self.verdict_at(token, now) == answer
                &&& self.looked_at(token, now)
            }
    }

    /// A verifier, where the configuration names a key. None means that clients need no token.
    pub fn from_config(config: &Config) -> (r: Option<AuthVerifier>)
        ensures
            r is Some <==> config.jwt_secret is Some || config.jwt_public_key is Some,
            (match r {
                Some(verifier) => Some(verifier.decoding),
                None => None,
            }) == configured_decoding(
                text_view(config.jwt_secret),
                text_view(config.jwt_public_key),
            ),
            r matches Some(verifier) ==> text_view(verifier.issuer) == text_view(
                config.jwt_issuer,
            ),
    {
        let issuer = config.jwt_issuer.clone();
        match &config.jwt_secret {
            Some(secret) => {
                let key = DecodingKey::from_secret(secret.as_str().as_bytes());
                Some(AuthVerifier { decoding: Decoding::Hmac(key), issuer })
            },
            None => match &config.jwt_public_key {
                Some(pem) => Some(AuthVerifier { decoding: read_pem(pem), issuer }),
                None => None,
            },
        }
    }

    /// The name of the algorithm that tokens have to be signed with.
    pub fn algorithm_name(&self) -> (r: &'static str)
        ensures
            r@ == (match self.decoding {
                Decoding::Hmac(_) => "HS256"@,
                Decoding::Asymmetric(_, JwtAlgorithm::EdDSA) => "EdDSA"@,
                _ => "RS256"@,
            }),
    {
        match &self.decoding {
            Decoding::Hmac(_) => "HS256",
            Decoding::Asymmetric(_, JwtAlgorithm::EdDSA) => "EdDSA",
            _ => "RS256",
        }
    }

    fn decoding_key(&self) -> (r: Option<&DecodingKey>)
        ensures
            (match r {
                Some(key) => Some(*key),
                None => None,
            }) == self.decoding.key(),
    {
        match &self.decoding {
            Decoding::Hmac(key) => Some(key),
            Decoding::Asymmetric(key, _) => Some(key),
            Decoding::Unreadable => None,
        }
    }

    fn algorithm(&self) -> (r: JwtAlgorithm)
        ensures
            r == self.decoding.algorithm(),
    {
        match &self.decoding {
            Decoding::Hmac(_) => JwtAlgorithm::HS256,
            Decoding::Asymmetric(_, algorithm) => *algorithm,
            Decoding::Unreadable => JwtAlgorithm::RS256,
        }
    }

    /// Decides on a token, now.
    pub fn verify(&self, token: &str) -> (r: Result<AuthIdentity, AuthError>)
        ensures
            self.may_answer(token@, verdict_view(r)),
            self.decoding is Unreadable ==> r == Err::<AuthIdentity, AuthError>(
                AuthError::Invalid,
            ),
            r matches Err(AuthError::IssuerMismatch) ==> self.issuer is Some,
    {
        let key = match self.decoding_key() {
            Some(key) => key,
            None => {
                assert(self.verdict_at(token@, 0) == Err::<IdentityModel, AuthError>(
                    AuthError::Invalid,
                ));
                assert(self.looked_at(token@, 0));
                return Err(AuthError::Invalid);
            },
        };
        let rules = TokenRules {
            algorithm: self.algorithm(),
            issuer: self.issuer.clone(),
            validate_exp: true,
            validate_aud: true,
            leeway: 0,
        };
        assert(rules@ == self.strict_rules());
        let signature_only = TokenRules {
            algorithm: self.algorithm(),
            issuer: None,
            validate_exp: false,
            validate_aud: false,
            leeway: 0,
        };
        assert(signature_only@ == self.strict_rules().signature_only());
        let strict = decode_token(token, key, &rules);
        let ghost now = choose|now: u64|
            {
                &&& #[trigger] jwt_decoded(token@, *key, rules@, now) == decode_outcome(strict)
                &&& follows(
                    decode_outcome(strict),
                    jwt_decoded(token@, *key, rules@.signature_only(), now),
                    rules@,
                    now,
                )
            };
        assert(self.looked_at(token@, now));
        match strict {
            Ok(raw) => {
                let r = judge(Ok(raw), Err(JwtFault::Other));
                assert(self.verdict_at(token@, now) == verdict_view(r));
                r
            },
            Err(e) => {
                let lenient = match decode_token(token, key, &signature_only) {
                    Ok(raw) => Ok(raw),
                    Err(e) => Err(fault_of(&e)),
                };
                let r = judge(Err(fault_of(&e)), lenient);
                assert(self.verdict_at(token@, now) == verdict_view(r));
                r
            },
        }
    }
}

/// Whether claims hold at a time: it is not up, and the issuer that they name, where they name one,
/// is the one asked for, where one is.
pub open spec fn claims_hold(claims: ClaimsModel, issuer: Option<Seq<char>>, now: u64) -> bool {
    &&& now <= claims.exp
    &&& issuer is Some && claims.iss is Some ==> claims.iss == issuer
}

/// A token that is accepted is signed as asked, and its own claims name the client and held when it
/// was looked at.
pub proof fn law_accepted_claims_hold(
    verifier: AuthVerifier,
    token: Seq<char>,
    identity: IdentityModel,
    now: u64,
)
    requires
        verifier.looked_at(token, now),
        verifier.verdict_at(token, now) == Ok::<IdentityModel, AuthError>(identity),
    ensures
        verifier.signed_at(token, now) matches Ok(raw) && claims_of_text(raw) matches Some(claims)
            && claims.identity() == identity && claims_hold(
            claims,
            text_view(verifier.issuer),
            now,
        ),
{
}

/// A token that is signed as asked, meant for no audience in particular, and whose claims hold, is
/// accepted for whom its claims name.
pub proof fn law_current_token_is_accepted(
    verifier: AuthVerifier,
    token: Seq<char>,
    raw: Seq<char>,
    claims: ClaimsModel,
    now: u64,
)
    requires
        verifier.looked_at(token, now),
        verifier.signed_at(token, now) == Ok::<Seq<char>, JwtFault>(raw),
        claims_of_text(raw) == Some(claims),
        claims_hold(claims, text_view(verifier.issuer), now),
        optional_claim(raw, "aud"@) == Some(None::<Seq<char>>),
    ensures
        verifier.verdict_at(token, now) == Ok::<IdentityModel, AuthError>(claims.identity()),
{
}

/// A token that is signed as asked and whole, but whose time is up, is refused as expired.
pub proof fn law_expired_token_is_refused(
    verifier: AuthVerifier,
    token: Seq<char>,
    raw: Seq<char>,
    claims: ClaimsModel,
    now: u64,
)
    requires
        verifier.looked_at(token, now),
        verifier.signed_at(token, now) == Ok::<Seq<char>, JwtFault>(raw),
        claims_of_text(raw) == Some(claims),
        claims.exp < now,
    ensures
        verifier.verdict_at(token, now) == Err::<IdentityModel, AuthError>(AuthError::Expired),
{
}

/// A token that is signed as asked, whole and current, but names another issuer than the one asked
/// for, is refused for that.
pub proof fn law_wrong_issuer_is_refused(
    verifier: AuthVerifier,
    token: Seq<char>,
    raw: Seq<char>,
    claims: ClaimsModel,
    now: u64,
)
    requires
        verifier.looked_at(token, now),
        verifier.signed_at(token, now) == Ok::<Seq<char>, JwtFault>(raw),
        claims_of_text(raw) == Some(claims),
        now <= claims.exp,
        verifier.issuer is Some,
        claims.iss is Some,
        claims.iss != text_view(verifier.issuer),
    ensures
        verifier.verdict_at(token, now) == Err::<IdentityModel, AuthError>(
            AuthError::IssuerMismatch,
        ),
{
}

/// A token that is not signed as asked is invalid.
pub proof fn law_unsigned_token_is_invalid(verifier: AuthVerifier, token: Seq<char>, now: u64)
    requires
        verifier.looked_at(token, now),
        verifier.signed_at(token, now) is Err,
    ensures
        verifier.verdict_at(token, now) == Err::<IdentityModel, AuthError>(AuthError::Invalid),
{
}

/// A token whose claims lack what they need is invalid, whatever else is wrong with it.
pub proof fn law_incomplete_claims_are_invalid(
    strict: Result<Seq<char>, JwtFault>,
    lenient: Result<Seq<char>, JwtFault>,
)
    requires
        strict matches Ok(raw) ==> claims_of_text(raw) is None,
        lenient matches Ok(raw) ==> claims_of_text(raw) is None,
    ensures
        verdict(strict, lenient) == Err::<IdentityModel, AuthError>(AuthError::Invalid),
{
}

/// Who names no tenant belongs to the default one.
pub proof fn law_tenant_defaults(claims: ClaimsModel)
    requires
        claims.tenant_id is None,
    ensures
        claims.identity().tenant_id == "default"@,
        claims.identity().client_id == claims.sub,
{
}

/// Whether the text of claims gives this text under a name: as a text, or, where it is none, by having
/// no such member or `null` for one.
pub open spec fn says_text(raw: Seq<char>, name: Seq<char>, text: Option<Seq<char>>) -> bool {
    match json_member(raw, name) {
        Some(Some(found)) => {
            &&& !(found.len() > 0 && found[0] == '{')
            &&& json_tree(found) is Some
            &&& json_model(json_tree(found)->0) == match text {
                Some(text) => JsonModel::Text(text),
                None => JsonModel::Null,
            }
        },
        Some(None) => text is None,
        None => false,
    }
}

/// Whether the text of claims gives this number under a name.
pub open spec fn says_integer(raw: Seq<char>, name: Seq<char>, n: i64) -> bool {
    json_member(raw, name) matches Some(Some(found)) && !(found.len() > 0 && found[0] == '{')
        && json_tree(found) is Some && json_model(json_tree(found)->0) == (JsonModel::Number {
        integer: Some(n),
    })
}

/// Claims are what their text says, each under its own name: a subject and a time, and perhaps a tenant
/// and an issuer. The bearer is the subject, of the tenant that is named, or else of the default
/// one. What else the text holds does not matter.
pub proof fn law_claims_are_what_their_text_says(
    raw: Seq<char>,
    sub: Seq<char>,
    tenant_id: Option<Seq<char>>,
    exp: i64,
    iss: Option<Seq<char>>,
)
    requires
        says_text(raw, "sub"@, Some(sub)),
        says_text(raw, "tenant_id"@, tenant_id),
        says_integer(raw, "exp"@, exp),
        says_text(raw, "iss"@, iss),
        !repeats(member_names(raw), "sub"@),
        !repeats(member_names(raw), "tenant_id"@),
        !repeats(member_names(raw), "exp"@),
        !repeats(member_names(raw), "iss"@),
    ensures
        claims_of_text(raw) == Some(ClaimsModel { sub, tenant_id, exp, iss }),
        claims_of_text(raw)->0.identity() == (IdentityModel {
            client_id: sub,
            tenant_id: match tenant_id {
                Some(tenant_id) => tenant_id,
                None => "default"@,
            },
        }),
{
    reveal_strlit("{");
    lemma_no_brace();
}

proof fn lemma_no_brace()
    ensures
        forall|text: Seq<char>| #[trigger]
            "{"@.is_prefix_of(text) <==> text.len() > 0 && text[0] == '{',
{
    reveal_strlit("{");
    assert forall|text: Seq<char>| #[trigger]
        "{"@.is_prefix_of(text) <==> text.len() > 0 && text[0] == '{' by {
        if text.len() > 0 && text[0] == '{' {
            assert("{"@ =~= text.take(1));
        }
        if "{"@.is_prefix_of(text) {
            assert(text.take(1)[0] == "{"@[0]);
        }
    }
}

/// Claims that were read are those that the text says, and it says none of them twice.
pub proof fn law_only_what_is_said_is_claimed(raw: Seq<char>, claims: ClaimsModel)
    requires
        claims_of_text(raw) == Some(claims),
    ensures
        says_text(raw, "sub"@, Some(claims.sub)),
        says_text(raw, "tenant_id"@, claims.tenant_id),
        says_integer(raw, "exp"@, claims.exp),
        says_text(raw, "iss"@, claims.iss),
        !repeats(member_names(raw), "sub"@),
        !repeats(member_names(raw), "tenant_id"@),
        !repeats(member_names(raw), "exp"@),
        !repeats(member_names(raw), "iss"@),
{
    lemma_no_brace();
}

/// The key that tokens are checked with is the one that was configured, and so is the algorithm: a secret
/// means HS256 and comes before any public key, an Ed25519 key means EdDSA, another key RS256. A public
/// key that cannot be read is none, but is not forgotten either.
pub proof fn law_key_is_as_configured(secret: Option<Seq<char>>, pem: Option<Seq<char>>)
    ensures
        secret matches Some(secret) ==> configured_decoding(Some(secret), pem) == Some(
            Decoding::Hmac(hmac_key(encode_utf8(secret))),
        ),
        secret is None && pem is None <==> configured_decoding(secret, pem) is None,
        pem matches Some(pem) ==> {
            let bytes = encode_utf8(pem);
            let decoding = configured_decoding(None, Some(pem))->0;
            &&& rsa_pem_key(bytes) matches Some(key) ==> decoding == Decoding::Asymmetric(
                key,
                JwtAlgorithm::RS256,
            )
            &&& rsa_pem_key(bytes) is None && ec_pem_key(bytes) is None ==> (match ed_pem_key(bytes) {
                Some(key) => decoding == Decoding::Asymmetric(key, JwtAlgorithm::EdDSA),
                None => decoding is Unreadable,
            })
            &&& rsa_pem_key(bytes) is None && ec_pem_key(bytes) is Some ==> decoding
                == Decoding::Asymmetric(ec_pem_key(bytes)->0, JwtAlgorithm::RS256)
        },
{
}

/// A token is checked with the verifier's key and algorithm, for its time and its audience and, where one
/// is asked for, its issuer, and with no leeway.
pub proof fn law_tokens_are_checked_in_full(verifier: AuthVerifier, token: Seq<char>, now: u64)
    ensures
        verifier.decoding matches Decoding::Hmac(key) ==> verifier.decoded_at(token, now)
            == jwt_decoded(
            token,
            key,
            TokenRulesModel {
                algorithm: JwtAlgorithm::HS256,
                issuer: text_view(verifier.issuer),
                validate_exp: true,
                validate_aud: true,
                leeway: 0,
            },
            now,
        ),
        verifier.decoding matches Decoding::Asymmetric(key, algorithm) ==> verifier.decoded_at(
            token,
            now,
        ) == jwt_decoded(
            token,
            key,
            TokenRulesModel {
                algorithm,
                issuer: text_view(verifier.issuer),
                validate_exp: true,
                validate_aud: true,
                leeway: 0,
            },
            now,
        ),
        verifier.decoding is Unreadable ==> verifier.decoded_at(token, now) is Err,
        verifier.decoded_at(token, now) is Err ==> verifier.verdict_at(token, now) is Err,
        verifier.decoded_at(token, now) matches Ok(raw) ==> verifier.verdict_at(token, now) == (
        match claims_of_text(raw) {
            Some(claims) => Ok::<IdentityModel, AuthError>(claims.identity()),
            None => Err(AuthError::Invalid),
        }),
{
}

/// Who names a tenant belongs to it, whatever it is called, and is who it names as its subject.
pub proof fn law_named_tenant_is_kept(claims: ClaimsModel, tenant_id: Seq<char>)
    requires
        claims.tenant_id == Some(tenant_id),
    ensures
        claims.identity().tenant_id == tenant_id,
        claims.identity().client_id == claims.sub,
{
}

/// The reasons for which a token is refused read differently.
pub proof fn law_auth_errors_read_differently(one: AuthError, other: AuthError)
    ensures
        one.spec_message() == other.spec_message() <==> one == other,
{
    reveal_strlit("invalid token");
    reveal_strlit("token expired");
    reveal_strlit("token issuer mismatch");
    if one.spec_message() == other.spec_message() {
        assert(one.spec_message().len() == other.spec_message().len());
        assert(one.spec_message()[0] == other.spec_message()[0]);
    }
}

/// Identities and claims are viewed field by field, with nothing left out.
pub proof fn law_identities_are_viewed_whole(identity: AuthIdentity, claims: Claims)
    ensures
        identity@ == (IdentityModel {
            client_id: identity.client_id@,
            tenant_id: identity.tenant_id@,
        }),
        claims@ == (ClaimsModel {
            sub: claims.sub@,
            tenant_id: text_view(claims.tenant_id),
            exp: claims.exp,
            iss: text_view(claims.iss),
        }),
{
}

/// What came of a token is viewed as it is.
pub proof fn law_verdicts_are_viewed_whole(
    verdict: Result<AuthIdentity, AuthError>,
    decoded: Result<String, JwtFault>,
)
    ensures
        verdict matches Ok(identity) ==> verdict_view(verdict) == Ok::<IdentityModel, AuthError>(
            identity@,
        ),
        verdict matches Err(e) ==> verdict_view(verdict) == Err::<IdentityModel, AuthError>(e),
        decoded matches Ok(raw) ==> decoded_view(decoded) == Ok::<Seq<char>, JwtFault>(raw@),
        decoded matches Err(fault) ==> decoded_view(decoded) == Err::<Seq<char>, JwtFault>(fault),
{
}

/// Where only the signature counts, a token is decoded with the same key and algorithm, and with nothing
/// else asked of it.
pub proof fn law_signatures_are_checked_alone(
    verifier: AuthVerifier,
    token: Seq<char>,
    key: DecodingKey,
    algorithm: JwtAlgorithm,
    now: u64,
)
    requires
        verifier.decoding == Decoding::Asymmetric(key, algorithm) || (verifier.decoding
            == Decoding::Hmac(key) && algorithm == JwtAlgorithm::HS256),
    ensures
        verifier.signed_at(token, now) == jwt_decoded(
            token,
            key,
            TokenRulesModel {
                algorithm,
                issuer: None,
                validate_exp: false,
                validate_aud: false,
                leeway: 0,
            },
            now,
        ),
{
}

/// A client is accepted only for claims that its token held when it was looked at, and refused only where
/// the token did not pass then.
pub proof fn law_answers_come_from_the_token(
    verifier: AuthVerifier,
    token: Seq<char>,
    answer: Result<IdentityModel, AuthError>,
)
    requires
        verifier.may_answer(token, answer),
    ensures
        exists|now: u64|
            {
                &&& #[trigger] verifier.looked_at(token, now)
                &&& answer matches Ok(identity) ==> (match verifier.decoded_at(token, now) {
                    Ok(raw) => claims_of_text(raw) is Some && claims_of_text(raw)->0.identity()
                        == identity,
                    Err(_) => false,
                })
                &&& answer is Err ==> (match verifier.decoded_at(token, now) {
                    Ok(raw) => claims_of_text(raw) is None,
                    Err(_) => true,
                })
            },
{
    let now = choose|now: u64|
        {
            &&& #[trigger] verifier.verdict_at(token, now) == answer
            &&& verifier.looked_at(token, now)
        };
    assert(verifier.looked_at(token, now));
}

} // verus!
