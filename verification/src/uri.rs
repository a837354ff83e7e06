use vstd::prelude::*;
use vstd::string::StringExecFns;
use vstd::utf8::encode_utf8;
use crate::address::{all_base58, is_base58_char};
use crate::query::{
    all_kept, ascii_text, form_encode, is_kept, lemma_kept_text_unchanged, lemma_query_round_trip,
    pair_values, parse_query, query_text, serialize_pairs,
};

verus! {

/// The optional parts of a payment link, in the order in which they are
/// written: amount, token, references, label, message, memo.
#[derive(Clone, Debug, PartialEq, Eq)]
pub struct LinkFields {
    /// The amount, already in canonical form.
    pub amount: Option<String>,
    /// The address of the token's mint; none for the native currency.
    pub token: Option<String>,
    /// The references, each written as a parameter of its own.
    pub references: Vec<String>,
    pub label: Option<String>,
    pub message: Option<String>,
    pub memo: Option<String>,
}

/// The parts of a `LinkFields` as texts.
pub struct FieldTexts {
    pub amount: Option<Seq<char>>,
    pub token: Option<Seq<char>>,
    pub references: Seq<Seq<char>>,
    pub label: Option<Seq<char>>,
    pub message: Option<Seq<char>>,
    pub memo: Option<Seq<char>>,
}

impl View for LinkFields {
    type V = FieldTexts;

    open spec fn view(&self) -> FieldTexts {
        FieldTexts {
            amount: self.amount.deep_view(),
            token: self.token.deep_view(),
            references: self.references.deep_view(),
            label: self.label.deep_view(),
            message: self.message.deep_view(),
            memo: self.memo.deep_view(),
        }
    }
}

/// The parameter that an optional value gives: one pair under `name` if it
/// is present, none if it is not.
pub open spec fn named(name: Seq<char>, value: Option<Seq<char>>) -> Seq<(Seq<char>, Seq<char>)> {
    match value {
        Some(v) => seq![(name, v)],
        None => Seq::empty(),
    }
}

/// One `reference` parameter for each reference, in order.
pub open spec fn reference_pairs(references: Seq<Seq<char>>) -> Seq<(Seq<char>, Seq<char>)> {
    Seq::new(references.len(), |i: int| ("reference"@, references[i]))
}

impl FieldTexts {
    /// The parameters of the link, in their fixed order.
    pub open spec fn pairs(self) -> Seq<(Seq<char>, Seq<char>)> {
        named("amount"@, self.amount) + named("spl-token"@, self.token) + reference_pairs(
            self.references,
        ) + named("label"@, self.label) + named("message"@, self.message) + named(
            "memo"@,
            self.memo,
        )
    }

    /// Whether no optional part is present.
    pub open spec fn is_bare(self) -> bool {
        &&& self.amount is None
        &&& self.token is None
        &&& self.references.len() == 0
        &&& self.label is None
        &&& self.message is None
        &&& self.memo is None
    }
}

/// The link for a scheme, a recipient and a list of parameters: scheme, `:`,
/// recipient, and where there are parameters `?` and their query string.
pub open spec fn uri_text(
    scheme: Seq<char>,
    recipient: Seq<char>,
    pairs: Seq<(Seq<char>, Seq<char>)>,
) -> Seq<char> {
    let head = scheme + seq![':'] + recipient;
    if pairs.len() == 0 {
        head
    } else {
        head + seq!['?'] + query_text(pairs)
    }
}

fn push_named(pairs: &mut Vec<(String, String)>, name: &str, value: &Option<String>)
    ensures
        final(pairs).deep_view() == old(pairs).deep_view() + named(name@, value.deep_view()),
{
    match value {
        Some(v) => {
            pairs.push((name.to_owned(), v.clone()));
            assert(pairs.deep_view() =~= old(pairs).deep_view() + named(name@, value.deep_view()));
        },
        None => {
            assert(pairs.deep_view() =~= old(pairs).deep_view() + named(name@, value.deep_view()));
        },
    }
}

fn push_references(pairs: &mut Vec<(String, String)>, references: &Vec<String>)
    ensures
        final(pairs).deep_view() == old(pairs).deep_view() + reference_pairs(
            references.deep_view(),
        ),
{
    let mut i: usize = 0;
    while i < references.len()
        invariant
            i <= references.len(),
            pairs.deep_view() == old(pairs).deep_view() + reference_pairs(
                references.deep_view().take(i as int),
            ),
        decreases references.len() - i,
    {
        let ghost before = pairs.deep_view();
        pairs.push(("reference".to_owned(), references[i].clone()));
        i = i + 1;
        assert(pairs.deep_view() =~= before.push(("reference"@, references@[i - 1]@)));
        assert(reference_pairs(references.deep_view().take(i as int)) =~= reference_pairs(
            references.deep_view().take(i - 1),
        ).push(("reference"@, references@[i - 1]@)));
    }
    assert(references.deep_view().take(i as int) =~= references.deep_view());
}

/// Writes the link: `scheme:recipient`, then `?` and the parameters that are
/// present, in their fixed order, names and values form-encoded. Without any
/// parameter the link ends after the recipient.
pub fn compose(scheme: &str, recipient: &str, fields: &LinkFields) -> (uri: String)
    ensures
        uri@ == uri_text(scheme@, recipient@, fields@.pairs()),
        fields@.is_bare() ==> uri@ == scheme@ + seq![':'] + recipient@,
{
    let mut pairs: Vec<(String, String)> = Vec::new();
    push_named(&mut pairs, "amount", &fields.amount);
    push_named(&mut pairs, "spl-token", &fields.token);
    push_references(&mut pairs, &fields.references);
    push_named(&mut pairs, "label", &fields.label);
    push_named(&mut pairs, "message", &fields.message);
    push_named(&mut pairs, "memo", &fields.memo);
    assert(pairs.deep_view() =~= fields@.pairs());
    let mut uri = scheme.to_owned();
    uri.append(":");
    uri.append(recipient);
    proof {
        reveal_strlit(":");
        assert(":"@ =~= seq![':']);
    }
    if pairs.len() > 0 {
        let query = serialize_pairs(&pairs);
        uri.append("?");
        uri.append(query.as_str());
        proof {
            reveal_strlit("?");
            assert("?"@ =~= seq!['?']);
        }
    }
    uri
}

/// What stands behind the `?` of a link.
pub open spec fn query_part(uri: Seq<char>, scheme: Seq<char>, recipient: Seq<char>) -> Seq<char> {
    uri.skip(scheme.len() as int + recipient.len() as int + 2)
}

/// Round trip: where a link has parameters, what stands behind its `?`
/// reads back as those parameters in their order, every name and value
/// byte for byte as it was given, whatever characters it holds.
pub proof fn lemma_link_round_trip(scheme: Seq<char>, recipient: Seq<char>, fields: FieldTexts)
    requires
        fields.pairs().len() > 0,
    ensures
        query_part(uri_text(scheme, recipient, fields.pairs()), scheme, recipient) == query_text(
            fields.pairs(),
        ),
        parse_query(
            encode_utf8(query_part(uri_text(scheme, recipient, fields.pairs()), scheme, recipient)),
        ) == pair_values(fields.pairs()),
{
    let uri = uri_text(scheme, recipient, fields.pairs());
    assert(query_part(uri, scheme, recipient) =~= query_text(fields.pairs()));
    lemma_query_round_trip(fields.pairs());
}

proof fn lemma_base58_char_kept(c: char)
    requires
        is_base58_char(c),
    ensures
        '\0' <= c <= '\u{7f}',
        is_kept(c as u8),
{
    assert(c as u32 <= 0x7f);
}

/// An address stands in a link as it is: the characters of the address
/// alphabet are written unchanged, so a recipient, a mint or a reference can
/// be read off the link without decoding.
pub proof fn lemma_address_written_unchanged(text: Seq<char>)
    requires
        all_base58(text),
    ensures
        ascii_text(form_encode(encode_utf8(text))) == text,
{
    assert(all_kept(text)) by {
        assert forall|i: int| 0 <= i < text.len() implies '\0' <= #[trigger] text[i] <= '\u{7f}'
            && is_kept(text[i] as u8) by {
            lemma_base58_char_kept(text[i]);
        }
    }
    lemma_kept_text_unchanged(text);
}

} // verus!
