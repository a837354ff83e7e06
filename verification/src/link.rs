use vstd::prelude::*;
use crate::address::{all_base58, base58_decoding, key_verdict, validate_pubkey, KEY_LEN};
use crate::amount::{exact_decimal, normalize_amount, normalized};
use crate::error::{AddressRole, ConfigKey, LinkError};
use crate::reference::{base58_encoding, random_key, reference_from_key};
use crate::request::{ConfigTexts, LinkConfig, LinkRequest, LinkResponse, RequestTexts};
use crate::token::{mint_address, mint_text, resolve_token, token_choice};
use crate::uri::{compose, uri_text, FieldTexts, LinkFields};

verus! {

/// The recipient of a request: its own, or else the configured one.
pub open spec fn recipient_text(req: RequestTexts, config: ConfigTexts) -> Result<
    Seq<char>,
    LinkError,
> {
    match req.recipient {
        Some(recipient) => Ok(recipient),
        None => match config.recipient {
            Some(recipient) => Ok(recipient),
            None => Err(LinkError::MissingConfiguration { key: ConfigKey::Recipient }),
        },
    }
}

/// The verdict on the address that stands in `role`.
pub open spec fn address_verdict(text: Seq<char>, role: AddressRole) -> Result<(), LinkError> {
    match key_verdict(base58_decoding(text)) {
        Ok(_) => Ok(()),
        Err(fault) => Err(LinkError::InvalidAddress { role, fault }),
    }
}

/// The verdict on the mint's address: none passes, one must be an address.
pub open spec fn mint_verdict(mint: Option<Seq<char>>) -> Result<(), LinkError> {
    match mint {
        None => Ok(()),
        Some(text) => address_verdict(text, AddressRole::Mint),
    }
}

/// The amount as it goes into the link: none where the request has none,
/// and else the normalized text of the request's.
pub open spec fn amount_part(amount: Option<Seq<char>>, max_decimals: Option<u32>) -> Result<
    Option<Seq<char>>,
    LinkError,
> {
    match amount {
        None => Ok(None),
        Some(text) => match normalized(exact_decimal(text), max_decimals) {
            Ok(canonical) => Ok(Some(canonical)),
            Err(e) => Err(e),
        },
    }
}

/// Whether a flag is set: one that is left out is not.
pub open spec fn flag(value: Option<bool>) -> bool {
    value == Some(true)
}

/// The scheme of every link.
pub open spec fn scheme() -> Seq<char> {
    "solana"@
}

/// What the checks of a request lead to under a configuration: the
/// recipient and the parts of the link but for its references, or the first
/// error on the way. The checks come in this order: recipient present,
/// recipient an address, token options consistent, named token configured,
/// mint an address, amount valid.
pub open spec fn checked_parts(req: RequestTexts, config: ConfigTexts) -> Result<
    (Seq<char>, FieldTexts),
    LinkError,
> {
    match recipient_text(req, config) {
        Err(e) => Err(e),
        Ok(recipient) => match address_verdict(recipient, AddressRole::Recipient) {
            Err(e) => Err(e),
            Ok(_) => match token_choice(
                req.spl_token,
                flag(req.use_usdc_mainnet),
                flag(req.use_usdc_devnet),
            ) {
                Err(e) => Err(e),
                Ok(choice) => match mint_text(choice, config.tokens) {
                    Err(e) => Err(e),
                    Ok(mint) => match mint_verdict(mint) {
                        Err(e) => Err(e),
                        Ok(_) => match amount_part(req.amount, req.max_decimals) {
                            Err(e) => Err(e),
                            Ok(amount) => Ok(
                                (
                                    recipient,
                                    FieldTexts {
                                        amount,
                                        token: mint,
                                        references: Seq::empty(),
                                        label: req.label,
                                        message: req.message,
                                        memo: req.memo,
                                    },
                                ),
                            ),
                        },
                    },
                },
            },
        },
    }
}

/// The link for a recipient and checked parts, with the given references.
pub open spec fn link_text(recipient: Seq<char>, parts: FieldTexts, references: Seq<Seq<char>>) -> Seq<
    char,
> {
    uri_text(scheme(), recipient, (FieldTexts { references, ..parts }).pairs())
}

/// What a request leads to under a configuration and with the reference of
/// a given key: the link and its reference, or the first error of the
/// checks.
pub open spec fn link_outcome(req: RequestTexts, config: ConfigTexts, key: Seq<u8>) -> Result<
    (Seq<char>, Seq<char>),
    LinkError,
> {
    match checked_parts(req, config) {
        Err(e) => Err(e),
        Ok(checked) => {
            let reference = base58_encoding(key);
            Ok((link_text(checked.0, checked.1, seq![reference]), reference))
        },
    }
}

/// The verdict on a list of references: each must be an address, and the
/// first that is none gives the error.
pub open spec fn references_verdict(references: Seq<Seq<char>>) -> Result<(), LinkError>
    decreases references.len(),
{
    if references.len() == 0 {
        Ok(())
    } else {
        match address_verdict(references[0], AddressRole::Reference) {
            Err(e) => Err(e),
            Ok(_) => references_verdict(references.drop_first()),
        }
    }
}

/// What a request leads to under a configuration and with references of
/// the caller's: the link, or the first error of the checks, those of the
/// references coming last.
pub open spec fn referenced_outcome(
    req: RequestTexts,
    config: ConfigTexts,
    references: Seq<Seq<char>>,
) -> Result<Seq<char>, LinkError> {
    match checked_parts(req, config) {
        Err(e) => Err(e),
        Ok(checked) => match references_verdict(references) {
            Err(e) => Err(e),
            Ok(_) => Ok(link_text(checked.0, checked.1, references)),
        },
    }
}

/// Whether `res` is what `link_outcome` gives for the request, the
/// configuration and the key.
pub open spec fn is_outcome(
    res: Result<LinkResponse, LinkError>,
    req: RequestTexts,
    config: ConfigTexts,
    key: Seq<u8>,
) -> bool {
    match res {
        Ok(link) => link_outcome(req, config, key) == Ok::<(Seq<char>, Seq<char>), LinkError>(
            (link.url@, link.reference@),
        ),
        Err(e) => link_outcome(req, config, key) == Err::<(Seq<char>, Seq<char>), LinkError>(e),
    }
}

/// Validates the address that stands in `role`.
pub fn validate_address(text: &str, role: AddressRole) -> (res: Result<(), LinkError>)
    ensures
        res == address_verdict(text@, role),
{
    match validate_pubkey(text) {
        Ok(_) => Ok(()),
        Err(fault) => Err(LinkError::InvalidAddress { role, fault }),
    }
}

fn pick_recipient(req: &LinkRequest, config: &LinkConfig) -> (res: Result<String, LinkError>)
    ensures
        match res {
            Ok(recipient) => recipient_text(req@, config@) == Ok::<Seq<char>, LinkError>(
                recipient@,
            ),
            Err(e) => recipient_text(req@, config@) == Err::<Seq<char>, LinkError>(e),
        },
{
    match &req.recipient {
        Some(recipient) => Ok(recipient.clone()),
        None => match &config.recipient {
            Some(recipient) => Ok(recipient.clone()),
            None => Err(LinkError::MissingConfiguration { key: ConfigKey::Recipient }),
        },
    }
}

fn is_set(value: Option<bool>) -> (res: bool)
    ensures
        res == flag(value),
{
    match value {
        Some(b) => b,
        None => false,
    }
}

fn check_request(req: &LinkRequest, config: &LinkConfig) -> (res: Result<
    (String, LinkFields),
    LinkError,
>)
    ensures
        match res {
            Ok(checked) => checked_parts(req@, config@) == Ok::<(Seq<char>, FieldTexts), LinkError>(
                (checked.0@, checked.1@),
            ),
            Err(e) => checked_parts(req@, config@) == Err::<(Seq<char>, FieldTexts), LinkError>(e),
        },
{
    let recipient = match pick_recipient(req, config) {
        Ok(recipient) => recipient,
        Err(e) => { return Err(e); },
    };
    match validate_address(recipient.as_str(), AddressRole::Recipient) {
        Ok(_) => {},
        Err(e) => { return Err(e); },
    }
    let selection = match resolve_token(
        req.spl_token.clone(),
        is_set(req.use_usdc_mainnet),
        is_set(req.use_usdc_devnet),
    ) {
        Ok(selection) => selection,
        Err(e) => { return Err(e); },
    };
    let mint = match mint_address(&selection, &config.tokens) {
        Ok(mint) => mint,
        Err(e) => { return Err(e); },
    };
    match &mint {
        Some(text) => match validate_address(text.as_str(), AddressRole::Mint) {
            Ok(_) => {},
            Err(e) => { return Err(e); },
        },
        None => {},
    }
    let amount = match &req.amount {
        Some(text) => match normalize_amount(text.as_str(), req.max_decimals) {
            Ok(canonical) => Some(canonical),
            Err(e) => { return Err(e); },
        },
        None => None,
    };
    let fields = LinkFields {
        amount,
        token: mint,
        references: Vec::new(),
        label: req.label.clone(),
        message: req.message.clone(),
        memo: req.memo.clone(),
    };
    assert(fields.references.deep_view() =~= Seq::<Seq<char>>::empty());
    Ok((recipient, fields))
}

/// Validates a list of references: each must be an address.
pub fn validate_references(references: &Vec<String>) -> (res: Result<(), LinkError>)
    ensures
        res == references_verdict(references.deep_view()),
{
    let ghost texts = references.deep_view();
    let mut i: usize = 0;
    assert(texts.skip(0) =~= texts);
    while i < references.len()
        invariant
            i <= references.len(),
            texts == references.deep_view(),
            references_verdict(texts) == references_verdict(texts.skip(i as int)),
        decreases references.len() - i,
    {
        assert(texts.skip(i as int)[0] == references@[i as int]@);
        assert(texts.skip(i as int).drop_first() =~= texts.skip(i + 1));
        match validate_address(references[i].as_str(), AddressRole::Reference) {
            Ok(_) => {},
            Err(e) => { return Err(e); },
        }
        i = i + 1;
    }
    Ok(())
}

/// Builds the payment link of a request with the reference of a given key.
/// Nothing is written unless every check passes. The reference of a link
/// is the key in the address alphabet, and the link always carries it.
pub fn build_link(req: &LinkRequest, config: &LinkConfig, key: &[u8; 32]) -> (res: Result<
    LinkResponse,
    LinkError,
>)
    ensures
        is_outcome(res, req@, config@, key@),
        res is Ok ==> res->Ok_0.reference@ == base58_encoding(key@) && all_base58(
            res->Ok_0.reference@,
        ),
{
    let (recipient, mut fields) = match check_request(req, config) {
        Ok(checked) => checked,
        Err(e) => { return Err(e); },
    };
    let reference = reference_from_key(key);
    let ghost parts = fields@;
    fields.references.push(reference.clone());
    assert(fields@ == (FieldTexts { references: seq![reference@], ..parts })) by {
        assert(fields.references.deep_view() =~= seq![reference@]);
    }
    let url = compose("solana", recipient.as_str(), &fields);
    Ok(LinkResponse { url, reference })
}

/// Builds the payment link of a request with references that the caller
/// supplies, none or several, each of which must be an address. Nothing is
/// written unless every check passes.
pub fn build_link_with_references(
    req: &LinkRequest,
    config: &LinkConfig,
    references: Vec<String>,
) -> (res: Result<String, LinkError>)
    ensures
        match res {
            Ok(url) => referenced_outcome(req@, config@, references.deep_view()) == Ok::<
                Seq<char>,
                LinkError,
            >(url@),
            Err(e) => referenced_outcome(req@, config@, references.deep_view()) == Err::<
                Seq<char>,
                LinkError,
            >(e),
        },
{
    let (recipient, mut fields) = match check_request(req, config) {
        Ok(checked) => checked,
        Err(e) => { return Err(e); },
    };
    match validate_references(&references) {
        Ok(_) => {},
        Err(e) => { return Err(e); },
    }
    let ghost parts = fields@;
    fields.references = references;
    assert(fields@ == (FieldTexts { references: references.deep_view(), ..parts }));
    Ok(compose("solana", recipient.as_str(), &fields))
}

/// Builds the payment link of a request with a fresh reference: the result
/// is what `build_link` gives for some key of 32 bytes.
pub fn create_link(req: &LinkRequest, config: &LinkConfig) -> (res: Result<LinkResponse, LinkError>)
    ensures
        exists|key: Seq<u8>| key.len() == KEY_LEN && #[trigger] is_outcome(res, req@, config@, key),
{
    let key = random_key();
    build_link(req, config, &key)
}

} // verus!
