//! How the layout of stored types is described to other programs.

use vstd::prelude::*;

use std::collections::BTreeMap;

use borsh::schema::{Definition, Fields};

use crate::pgf::PGFIbcTarget;
use crate::types::Amount;

verus! {

/// The description of one type, as borsh keeps it.
#[verifier::external_type_specification]
#[verifier::external_body]
pub struct ExDefinition(borsh::schema::Definition);

/// The structs with named fields among some definitions: under the name of
/// each, the names of its fields and of their types.
pub uninterp spec fn named_structs(definitions: BTreeMap<String, Definition>) -> Map<
    Seq<char>,
    Seq<(Seq<char>, Seq<char>)>,
>;

/// The names that are described.
pub open spec fn declarations(definitions: Map<String, Definition>) -> Set<Seq<char>> {
    definitions.dom().map(|key: String| key@)
}

/// The names of fields and of their types.
pub open spec fn field_texts(fields: Seq<(String, String)>) -> Seq<(Seq<char>, Seq<char>)> {
    fields.map_values(|field: (String, String)| (field.0@, field.1@))
}

/// Calls `BTreeMap::insert` with a `borsh::schema::Definition` of a struct
/// with named fields. The name is described from then on: the new definition
/// replaces what stood under it, if anything did, and every other definition
/// is left as it was.
#[verifier::external_body]
fn insert_named_struct(
    definitions: &mut BTreeMap<String, Definition>,
    declaration: String,
    fields: Vec<(String, String)>,
)
    ensures
        named_structs(*final(definitions)) == named_structs(*old(definitions)).insert(
            declaration@,
            field_texts(fields@),
        ),
        declarations(final(definitions)@) == declarations(old(definitions)@).insert(declaration@),
        forall|key: String|
            key@ != declaration@ ==> (#[trigger] final(definitions)@.contains_key(key)
                <==> old(definitions)@.contains_key(key)),
        forall|key: String|
            key@ != declaration@ && old(definitions)@.contains_key(key)
                ==> #[trigger] final(definitions)@[key] == old(definitions)@[key],
{
    definitions.insert(declaration, Definition::Struct { fields: Fields::NamedFields(fields) });
}

/// Calls `borsh::BorshSchema::declaration` for strings. It returns `String`.
#[verifier::external_body]
fn string_declaration() -> (res: String)
    ensures
        res@ == "String"@,
{
    <String as borsh::BorshSchema>::declaration()
}

impl Amount {
    /// The name of the type in descriptions.
    pub fn declaration() -> (res: String)
        ensures
            res@ == "Amount"@,
    {
        "Amount".to_owned()
    }
}

impl PGFIbcTarget {
    /// The fields in their stored order, each with the name of its type. Both
    /// identifiers are stored as strings.
    pub open spec fn schema_fields() -> Seq<(Seq<char>, Seq<char>)> {
        seq![
            ("target"@, "String"@),
            ("amount"@, "Amount"@),
            ("port_id"@, "String"@),
            ("channel_id"@, "String"@),
        ]
    }

    /// Puts the description of the type under the given name, and leaves the
    /// others as they are.
    pub fn add_definitions_recursively(
        declaration: String,
        definitions: &mut BTreeMap<String, Definition>,
    )
        ensures
            named_structs(*final(definitions)) == named_structs(*old(definitions)).insert(
                declaration@,
                PGFIbcTarget::schema_fields(),
            ),
            declarations(final(definitions)@) == declarations(old(definitions)@).insert(
                declaration@,
            ),
            exists|key: String|
                key@ == declaration@ && #[trigger] final(definitions)@.contains_key(key),
            forall|key: String|
                key@ != declaration@ ==> (#[trigger] final(definitions)@.contains_key(key)
                    <==> old(definitions)@.contains_key(key)),
            forall|key: String|
                key@ != declaration@ && old(definitions)@.contains_key(key)
                    ==> #[trigger] final(definitions)@[key] == old(definitions)@[key],
    {
        let mut fields: Vec<(String, String)> = Vec::new();
        fields.push(("target".to_owned(), string_declaration()));
        fields.push(("amount".to_owned(), Amount::declaration()));
        fields.push(("port_id".to_owned(), string_declaration()));
        fields.push(("channel_id".to_owned(), string_declaration()));
        assert(field_texts(fields@) =~= PGFIbcTarget::schema_fields());
        insert_named_struct(definitions, declaration, fields);
        assert(declarations(definitions@).contains(declaration@));
    }
}

/// A target on another chain is described by four fields, named as they are
/// stored: the target, the amount, the port and the channel. The amount is an
/// amount, and all others are strings.
pub proof fn law_described_fields()
    ensures
        PGFIbcTarget::schema_fields().len() == 4,
        PGFIbcTarget::schema_fields()[0].0 == "target"@,
        PGFIbcTarget::schema_fields()[1].0 == "amount"@,
        PGFIbcTarget::schema_fields()[2].0 == "port_id"@,
        PGFIbcTarget::schema_fields()[3].0 == "channel_id"@,
        forall|i: int|
            0 <= i < 4 ==> (#[trigger] PGFIbcTarget::schema_fields()[i]).1 == (if i == 1 {
                "Amount"@
            } else {
                "String"@
            }),
{
}

/// Fields are taken by their texts, one by one.
pub proof fn law_fields_keep_their_texts(fields: Seq<(String, String)>)
    ensures
        field_texts(fields).len() == fields.len(),
        forall|i: int|
            0 <= i < fields.len() ==> (#[trigger] field_texts(fields)[i]).0 == fields[i].0@
                && field_texts(fields)[i].1 == fields[i].1@,
{
}

/// A name is described where one of the definitions stands under it.
pub proof fn law_described_names(definitions: Map<String, Definition>, name: Seq<char>)
    ensures
        declarations(definitions).contains(name) <==> exists|key: String|
            key@ == name && #[trigger] definitions.contains_key(key),
{
    if declarations(definitions).contains(name) {
        let key = choose|key: String| definitions.dom().contains(key) && key@ == name;
        assert(definitions.contains_key(key));
    }
    if exists|key: String| key@ == name && #[trigger] definitions.contains_key(key) {
        let key = choose|key: String| key@ == name && #[trigger] definitions.contains_key(key);
        assert(definitions.dom().contains(key));
    }
}

} // verus!
