//! The shape of a declaration file, as a JSON schema document that an
//! editor can hold a file against.
use vstd::prelude::*;
use vstd::string::*;

verus! {

/// A schema of a property, by its name or by the pattern of its name.
pub type Property = (String, JsonSchema);

/// A schema that says what type a value has.
#[derive(Debug, PartialEq, Eq)]
pub enum TypedJsonSchema {
    /// An object: whether it may have properties that are not listed, the
    /// schemas of properties by the pattern of their names and by their
    /// names, and the names of the properties that it must have.
    Object {
        additional_properties: bool,
        pattern_properties: Option<Vec<Property>>,
        properties: Option<Vec<Property>>,
        required: Option<Vec<String>>,
    },
    /// An array whose items all have one schema.
    Array { items: Box<JsonSchema> },
    /// A boolean.
    Boolean,
    /// A string.
    String,
    /// An integer.
    Integer,
}

/// A schema: what type a value has, or which schemas it may have one of,
/// with a title and a description for the reader.
#[derive(Debug, PartialEq, Eq)]
pub struct JsonSchema {
    pub typed_schema: Option<TypedJsonSchema>,
    pub title: String,
    pub description: String,
    pub one_of: Option<Vec<JsonSchema>>,
}

/// A schema document: a schema together with the dialect it is written in.
#[derive(Debug, PartialEq, Eq)]
pub struct JsonSchemaDocument {
    pub schema: String,
    pub id: Option<String>,
    pub definitions: Option<Vec<Property>>,
    pub json_schema: JsonSchema,
}

/// Whether `schema` says no more than that a value has the type `typed`.
pub open spec fn is_plain(schema: JsonSchema, typed: TypedJsonSchema) -> bool {
    &&& schema.typed_schema == Some(typed)
    &&& schema.title@ == Seq::<char>::empty()
    &&& schema.description@ == Seq::<char>::empty()
    &&& schema.one_of is None
}

/// Whether `schema` is the schema of a string with the given title and
/// description.
pub open spec fn is_string(schema: JsonSchema, title: Seq<char>, description: Seq<char>) -> bool {
    &&& schema.typed_schema == Some(TypedJsonSchema::String)
    &&& schema.title@ == title
    &&& schema.description@ == description
    &&& schema.one_of is None
}

/// Whether `property` has the name `name` and is a string with the given
/// title and description.
pub open spec fn is_string_property(
    property: Property,
    name: Seq<char>,
    title: Seq<char>,
    description: Seq<char>,
) -> bool {
    property.0@ == name && is_string(property.1, title, description)
}

/// Whether `names` are the given names, in order.
pub open spec fn are_names(names: Seq<String>, wanted: Seq<Seq<char>>) -> bool {
    &&& names.len() == wanted.len()
    &&& forall|i: int| 0 <= i < names.len() ==> (#[trigger] names[i])@ == wanted[i]
}

impl JsonSchema {
    /// The schema with the given parts.
    pub fn new(
        typed_schema: Option<TypedJsonSchema>,
        title: &str,
        description: &str,
        one_of: Option<Vec<JsonSchema>>,
    ) -> (schema: Self)
        ensures
            schema.typed_schema == typed_schema,
            schema.title@ == title@,
            schema.description@ == description@,
            schema.one_of == one_of,
    {
        Self {
            typed_schema,
            title: String::from_str(title),
            description: String::from_str(description),
            one_of,
        }
    }

    /// The schema of a value that has one of the given types: each type
    /// becomes a schema that says no more than the type, in order.
    pub fn one_of(typed_schemas: Vec<TypedJsonSchema>, title: &str, description: &str) -> (schema:
        Self)
        ensures
            schema.typed_schema is None,
            schema.title@ == title@,
            schema.description@ == description@,
            schema.one_of is Some,
            schema.one_of->0@.len() == typed_schemas@.len(),
            forall|i: int|
                0 <= i < typed_schemas@.len() ==> is_plain(
                    #[trigger] schema.one_of->0@[i],
                    typed_schemas@[i],
                ),
    {
        let ghost wanted = typed_schemas@;
        let mut rest = typed_schemas;
        let mut schemas: Vec<JsonSchema> = Vec::new();
        while rest.len() > 0
            invariant
                schemas@.len() + rest@.len() == wanted.len(),
                forall|i: int|
                    0 <= i < rest@.len() ==> (#[trigger] rest@[i]) == wanted[schemas@.len() + i],
                forall|i: int|
                    0 <= i < schemas@.len() ==> is_plain(#[trigger] schemas@[i], wanted[i]),
            decreases rest@.len(),
        {
            let typed = rest.remove(0);
            schemas.push(JsonSchema::from(typed));
        }
        Self {
            typed_schema: None,
            title: String::from_str(title),
            description: String::from_str(description),
            one_of: Some(schemas),
        }
    }

    /// The schema that says no more than that a value has the type
    /// `value`.
    pub fn from(value: TypedJsonSchema) -> (schema: Self)
        ensures
            is_plain(schema, value),
    {
        proof {
            reveal_strlit("");
        }
        assert(""@ =~= Seq::<char>::empty());
        Self::new(Some(value), "", "", None)
    }
}

/// Whether `typed` is an object that admits no property beyond those
/// listed and none by pattern.
pub open spec fn is_closed_object(typed: TypedJsonSchema) -> bool {
    typed matches TypedJsonSchema::Object {
        additional_properties,
        pattern_properties,
        properties,
        required,
    } && !additional_properties && pattern_properties is None && properties is Some
        && required is Some
}

/// The listed properties of an object.
pub open spec fn properties_of(typed: TypedJsonSchema) -> Seq<Property> {
    match typed {
        TypedJsonSchema::Object { properties: Some(listed), .. } => listed@,
        _ => Seq::empty(),
    }
}

/// The names of the properties that an object must have.
pub open spec fn required_of(typed: TypedJsonSchema) -> Seq<String> {
    match typed {
        TypedJsonSchema::Object { required: Some(names), .. } => names@,
        _ => Seq::empty(),
    }
}

/// Whether `property` is the source directory of a declaration file.
pub open spec fn is_source_dir(property: Property) -> bool {
    is_string_property(
        property,
        "source_dir"@,
        "Symlink source directory"@,
        "Prefix joined with each symlink target path"@,
    )
}

/// Whether `property` is the destination directory of a declaration file.
pub open spec fn is_destination_dir(property: Property) -> bool {
    is_string_property(
        property,
        "destination_dir"@,
        "Symlink destination directory"@,
        "Prefix joined with each symlink name"@,
    )
}

/// Whether `property` is the file that a declaration file extends.
pub open spec fn is_extends(property: Property) -> bool {
    is_string_property(
        property,
        "extends"@,
        "Parent configuration"@,
        "Inherit default configuration values from another configuration file."@,
    )
}

/// Whether `typed` is the `config` section of a root file: both
/// directories, both required.
pub open spec fn is_root_form(typed: TypedJsonSchema) -> bool {
    &&& is_closed_object(typed)
    &&& properties_of(typed).len() == 2
    &&& is_source_dir(properties_of(typed)[0])
    &&& is_destination_dir(properties_of(typed)[1])
    &&& are_names(required_of(typed), seq!["source_dir"@, "destination_dir"@])
}

/// Whether `typed` is the `config` section of a child file: the file it
/// extends, which is required, and both directories, which are not.
pub open spec fn is_child_form(typed: TypedJsonSchema) -> bool {
    &&& is_closed_object(typed)
    &&& properties_of(typed).len() == 3
    &&& is_extends(properties_of(typed)[0])
    &&& is_source_dir(properties_of(typed)[1])
    &&& is_destination_dir(properties_of(typed)[2])
    &&& are_names(required_of(typed), seq!["extends"@])
}

/// Whether `property` is the `config` section: one of the root form and
/// the child form, in that order.
pub open spec fn is_config_property(property: Property) -> bool {
    &&& property.0@ == "config"@
    &&& property.1.typed_schema is None
    &&& property.1.title@ == "Configuration"@
    &&& property.1.description@
        == "Either a root configuration or a child configuration that inherits default config values from another configuration file."@
    &&& property.1.one_of matches Some(forms) && forms@.len() == 2
        && forms@[0].typed_schema is Some && is_root_form(forms@[0].typed_schema->0)
        && forms@[1].typed_schema is Some && is_child_form(forms@[1].typed_schema->0)
        && is_plain(forms@[0], forms@[0].typed_schema->0)
        && is_plain(forms@[1], forms@[1].typed_schema->0)
}

/// Whether `property` is the table of links: an object whose every
/// property has a name of the pattern of a link name and is a string.
pub open spec fn is_symlinks_property(property: Property) -> bool {
    &&& property.0@ == "symlinks"@
    &&& property.1.title@ == "Symlinks"@
    &&& property.1.description@
        == "Object whose keys are symlink names and whose values are symlink target paths."@
    &&& property.1.one_of is None
    &&& property.1.typed_schema matches Some(
        TypedJsonSchema::Object { additional_properties, pattern_properties, properties, required },
    ) && !additional_properties && properties is None && required is None && is_link_pattern(
        pattern_properties,
    )
}

/// Whether `patterns` is the one pattern of a link name, whose value is a
/// string.
pub open spec fn is_link_pattern(patterns: Option<Vec<Property>>) -> bool {
    patterns matches Some(listed) && listed@.len() == 1 && is_string_property(
        listed@[0],
        "^[a-zA-Z0-9_./-]+$"@,
        "Maps symlink name to target path relative to the configured source directory."@,
        Seq::empty(),
    )
}

/// Whether `property` names the schema that a declaration file is held
/// against.
pub open spec fn is_schema_property(property: Property) -> bool {
    is_string_property(
        property,
        "$schema"@,
        "JSON schema"@,
        "URL or path to the JSON schema used to validate this document."@,
    )
}

/// Whether `document` is the schema of a declaration file: an object with
/// the `config` section, which is required, the table of links, and the
/// name of the schema, in that order and with nothing else.
pub open spec fn is_config_schema(document: JsonSchemaDocument) -> bool {
    &&& document.schema@ == "http://json-schema.org/draft-07/schema"@
    &&& document.id is None
    &&& document.definitions is None
    &&& document.json_schema.title@ == "Symlonk configuration"@
    &&& document.json_schema.description@ == Seq::<char>::empty()
    &&& document.json_schema.one_of is None
    &&& document.json_schema.typed_schema matches Some(top) && is_closed_object(top)
        && properties_of(top).len() == 3 && is_config_property(properties_of(top)[0])
        && is_symlinks_property(properties_of(top)[1]) && is_schema_property(
        properties_of(top)[2],
    ) && are_names(required_of(top), seq!["config"@])
}

fn string_property(name: &str, title: &str, description: &str) -> (property: Property)
    ensures
        is_string_property(property, name@, title@, description@),
{
    (
        String::from_str(name),
        JsonSchema::new(Some(TypedJsonSchema::String), title, description, None),
    )
}

fn source_dir_property() -> (property: Property)
    ensures
        is_source_dir(property),
{
    string_property(
        "source_dir",
        "Symlink source directory",
        "Prefix joined with each symlink target path",
    )
}

fn destination_dir_property() -> (property: Property)
    ensures
        is_destination_dir(property),
{
    string_property(
        "destination_dir",
        "Symlink destination directory",
        "Prefix joined with each symlink name",
    )
}

fn root_form() -> (typed: TypedJsonSchema)
    ensures
        is_root_form(typed),
{
    let mut properties: Vec<Property> = Vec::new();
    properties.push(source_dir_property());
    properties.push(destination_dir_property());
    let mut required: Vec<String> = Vec::new();
    required.push(String::from_str("source_dir"));
    required.push(String::from_str("destination_dir"));
    TypedJsonSchema::Object {
        additional_properties: false,
        pattern_properties: None,
        properties: Some(properties),
        required: Some(required),
    }
}

fn child_form() -> (typed: TypedJsonSchema)
    ensures
        is_child_form(typed),
{
    let mut properties: Vec<Property> = Vec::new();
    properties.push(
        string_property(
            "extends",
            "Parent configuration",
            "Inherit default configuration values from another configuration file.",
        ),
    );
    properties.push(source_dir_property());
    properties.push(destination_dir_property());
    let mut required: Vec<String> = Vec::new();
    required.push(String::from_str("extends"));
    TypedJsonSchema::Object {
        additional_properties: false,
        pattern_properties: None,
        properties: Some(properties),
        required: Some(required),
    }
}

fn config_property() -> (property: Property)
    ensures
        is_config_property(property),
{
    let mut forms: Vec<TypedJsonSchema> = Vec::new();
    forms.push(root_form());
    forms.push(child_form());
    let schema = JsonSchema::one_of(
        forms,
        "Configuration",
        "Either a root configuration or a child configuration that inherits default config values from another configuration file.",
    );
    assert(is_plain(schema.one_of->0@[0], forms@[0]));
    assert(is_plain(schema.one_of->0@[1], forms@[1]));
    (String::from_str("config"), schema)
}

fn symlinks_property() -> (property: Property)
    ensures
        is_symlinks_property(property),
{
    proof {
        reveal_strlit("");
    }
    assert(""@ =~= Seq::<char>::empty());
    let mut patterns: Vec<Property> = Vec::new();
    patterns.push(
        string_property(
            "^[a-zA-Z0-9_./-]+$",
            "Maps symlink name to target path relative to the configured source directory.",
            "",
        ),
    );
    let schema = JsonSchema::new(
        Some(
            TypedJsonSchema::Object {
                additional_properties: false,
                pattern_properties: Some(patterns),
                properties: None,
                required: None,
            },
        ),
        "Symlinks",
        "Object whose keys are symlink names and whose values are symlink target paths.",
        None,
    );
    (String::from_str("symlinks"), schema)
}

/// The schema of a declaration file.
pub fn config_schema() -> (document: JsonSchemaDocument)
    ensures
        is_config_schema(document),
{
    proof {
        reveal_strlit("");
    }
    assert(""@ =~= Seq::<char>::empty());
    let mut properties: Vec<Property> = Vec::new();
    properties.push(config_property());
    properties.push(symlinks_property());
    properties.push(
        string_property(
            "$schema",
            "JSON schema",
            "URL or path to the JSON schema used to validate this document.",
        ),
    );
    let mut required: Vec<String> = Vec::new();
    required.push(String::from_str("config"));
    JsonSchemaDocument {
        id: None,
        schema: String::from_str("http://json-schema.org/draft-07/schema"),
        definitions: None,
        json_schema: JsonSchema::new(
            Some(
                TypedJsonSchema::Object {
                    additional_properties: false,
                    pattern_properties: None,
                    properties: Some(properties),
                    required: Some(required),
                },
            ),
            "Symlonk configuration",
            "",
            None,
        ),
    }
}

} // verus!
