//! WASM tool manifests (`tool.toml`).

use vstd::prelude::*;

use crate::json;
use crate::json::Json;
use crate::json::TomlDocument;
use crate::text;
use crate::text::decimal_text;
use crate::text::join2;
use crate::text::join3;
use crate::tool::ToolSpec;
use crate::wasm::limits::DEFAULT_EPOCH_DEADLINE_TICKS;
use crate::wasm::limits::DEFAULT_MAX_MEMORY_BYTES;
use crate::wasm::limits::MAX_MEMORY_HARD_CAP;
use crate::wasm::WasmError;

verus! {

/// Parsed contents of a `tool.toml` manifest file.
#[derive(Debug)]
pub struct WasmToolManifest {
    /// Tool name (used for registry lookup).
    pub name: String,
    /// Human-readable description.
    pub description: String,
    /// Tool version string.
    pub version: String,
    /// Path to the `.wasm` binary, relative to the manifest directory.
    pub wasm: String,
    /// Resource limit overrides.
    pub limits: WasmToolLimits,
    /// JSON Schema for tool parameters.
    pub parameters: Option<Json>,
}

/// Optional resource limit overrides from the manifest.
#[derive(Debug, Clone, Copy, PartialEq, Eq, Structural)]
pub struct WasmToolLimits {
    /// Maximum linear memory in bytes.
    pub max_memory_bytes: usize,
    /// Epoch deadline in ticks.
    pub epoch_deadline_ticks: u64,
}

impl Default for WasmToolLimits {
    fn default() -> (r: Self)
        ensures
            r.max_memory_bytes == DEFAULT_MAX_MEMORY_BYTES,
            r.epoch_deadline_ticks == DEFAULT_EPOCH_DEADLINE_TICKS,
    {
        WasmToolLimits {
            max_memory_bytes: DEFAULT_MAX_MEMORY_BYTES,
            epoch_deadline_ticks: DEFAULT_EPOCH_DEADLINE_TICKS,
        }
    }
}

/// Validated configuration derived from a manifest.
#[derive(Debug)]
pub struct WasmToolConfig {
    /// The parsed manifest.
    pub manifest: WasmToolManifest,
    /// Resolved absolute path to the `.wasm` binary.
    pub wasm_path: String,
}

/// A field of a manifest that holds text.
#[derive(Debug)]
pub enum TextField {
    /// The field is not there.
    Missing,
    /// The field holds this text.
    Text(String),
    /// The field holds something else.
    Mistyped,
}

/// A field of a manifest that holds a number.
#[derive(Debug, Clone, Copy, PartialEq, Eq, Structural)]
pub enum NumberField {
    /// The field is not there.
    Missing,
    /// The field holds this number.
    Number(u64),
    /// The field holds something else.
    Mistyped,
}

/// The limits of a manifest.
#[derive(Debug, Clone, Copy, PartialEq, Eq, Structural)]
pub enum LimitsField {
    /// There are none.
    Missing,
    /// They are there: a table, or a list of them in this order.
    Given {
        /// Maximum linear memory in bytes.
        max_memory_bytes: NumberField,
        /// Epoch deadline in ticks.
        epoch_deadline_ticks: NumberField,
    },
    /// There is something else in their place.
    Mistyped,
}

/// The fields of a manifest document.
#[derive(Debug)]
pub struct ManifestFields {
    /// Tool name.
    pub name: TextField,
    /// Human-readable description.
    pub description: TextField,
    /// Tool version string.
    pub version: TextField,
    /// Path to the `.wasm` binary.
    pub wasm: TextField,
    /// Resource limit overrides.
    pub limits: LimitsField,
    /// JSON Schema for tool parameters.
    pub parameters: Option<Json>,
}

/// The complaint about a text field, if there is one.
pub open spec fn text_complaint(field: TextField, name: Seq<char>) -> Option<Seq<char>> {
    match field {
        TextField::Text(_) => None,
        TextField::Missing => Some("missing field `"@ + name + "`"@),
        TextField::Mistyped => Some("invalid type for field `"@ + name + "`"@),
    }
}

/// The complaint about a number field, if there is one.
pub open spec fn number_complaint(field: NumberField, max: nat, name: Seq<char>) -> Option<
    Seq<char>,
> {
    match field {
        NumberField::Missing => None,
        NumberField::Number(n) => if n <= max {
            None
        } else {
            Some("invalid type for field `"@ + name + "`"@)
        },
        NumberField::Mistyped => Some("invalid type for field `"@ + name + "`"@),
    }
}

/// The complaint about the limits, if there is one.
pub open spec fn limits_complaint(limits: LimitsField) -> Option<Seq<char>> {
    match limits {
        LimitsField::Missing => None,
        LimitsField::Mistyped => Some("invalid type for field `"@ + "limits"@ + "`"@),
        LimitsField::Given { max_memory_bytes, epoch_deadline_ticks } => {
            let memory = number_complaint(
                max_memory_bytes,
                usize::MAX as nat,
                "max_memory_bytes"@,
            );
            if memory is Some {
                memory
            } else {
                number_complaint(epoch_deadline_ticks, u64::MAX as nat, "epoch_deadline_ticks"@)
            }
        },
    }
}

/// What is wrong with the fields of a manifest: the first field, in the order of
/// the declaration, that is missing or holds the wrong kind of value.
pub open spec fn fields_complaint(fields: ManifestFields) -> Option<Seq<char>> {
    if text_complaint(fields.name, "name"@) is Some {
        text_complaint(fields.name, "name"@)
    } else if text_complaint(fields.description, "description"@) is Some {
        text_complaint(fields.description, "description"@)
    } else if text_complaint(fields.version, "version"@) is Some {
        text_complaint(fields.version, "version"@)
    } else if text_complaint(fields.wasm, "wasm"@) is Some {
        text_complaint(fields.wasm, "wasm"@)
    } else {
        limits_complaint(fields.limits)
    }
}

/// The number of a field, or its default.
pub open spec fn number_or(field: NumberField, default: nat) -> nat {
    match field {
        NumberField::Number(n) => n as nat,
        _ => default,
    }
}

/// Whether `limits` are those of the field; what the field leaves out has its
/// default.
pub open spec fn are_limits(field: LimitsField, limits: WasmToolLimits) -> bool {
    match field {
        LimitsField::Given { max_memory_bytes, epoch_deadline_ticks } => {
            &&& limits.max_memory_bytes == number_or(
                max_memory_bytes,
                DEFAULT_MAX_MEMORY_BYTES as nat,
            )
            &&& limits.epoch_deadline_ticks == number_or(
                epoch_deadline_ticks,
                DEFAULT_EPOCH_DEADLINE_TICKS as nat,
            )
        },
        _ => limits.max_memory_bytes == DEFAULT_MAX_MEMORY_BYTES && limits.epoch_deadline_ticks
            == DEFAULT_EPOCH_DEADLINE_TICKS,
    }
}

/// Whether a text field holds this text.
pub open spec fn holds(field: TextField, text: String) -> bool {
    field matches TextField::Text(held) && held == text
}

/// The text that a field holds.
pub open spec fn text_in(field: TextField) -> Seq<char> {
    match field {
        TextField::Text(text) => text@,
        _ => Seq::empty(),
    }
}

/// The memory limit that a manifest asks for.
pub open spec fn memory_in(field: LimitsField) -> nat {
    match field {
        LimitsField::Given { max_memory_bytes, .. } => number_or(
            max_memory_bytes,
            DEFAULT_MAX_MEMORY_BYTES as nat,
        ),
        _ => DEFAULT_MAX_MEMORY_BYTES as nat,
    }
}

/// Whether a manifest is made of these fields.
pub open spec fn is_made_of(manifest: WasmToolManifest, fields: ManifestFields) -> bool {
    &&& holds(fields.name, manifest.name)
    &&& holds(fields.description, manifest.description)
    &&& holds(fields.version, manifest.version)
    &&& holds(fields.wasm, manifest.wasm)
    &&& are_limits(fields.limits, manifest.limits)
    &&& manifest.parameters == fields.parameters
}

/// What is wrong with the values of a manifest, if anything is.
pub open spec fn flaw(
    name: Seq<char>,
    description: Seq<char>,
    wasm: Seq<char>,
    max_memory_bytes: nat,
) -> Option<Seq<char>> {
    if text::is_blank_text(name) {
        Some("manifest: name must not be empty"@)
    } else if text::is_blank_text(description) {
        Some("manifest: description must not be empty"@)
    } else if text::is_blank_text(wasm) {
        Some("manifest: wasm path must not be empty"@)
    } else if max_memory_bytes > MAX_MEMORY_HARD_CAP {
        Some(
            "manifest: max_memory_bytes ("@ + text::decimal(max_memory_bytes)
                + ") exceeds hard cap ("@ + text::decimal(MAX_MEMORY_HARD_CAP as nat) + ")"@,
        )
    } else {
        None
    }
}

/// What a manifest with these fields gives: an error of parsing where a field is
/// missing or holds the wrong kind of value, else an error of validation where a
/// value is not acceptable, else the manifest.
pub open spec fn outcome(fields: ManifestFields, r: Result<WasmToolManifest, WasmError>) -> bool {
    match fields_complaint(fields) {
        Some(complaint) => {
            &&& r matches Err(WasmError::ManifestParse(what))
            &&& what@ == complaint
        },
        None => match flaw(
            text_in(fields.name),
            text_in(fields.description),
            text_in(fields.wasm),
            memory_in(fields.limits),
        ) {
            Some(found) => {
                &&& r matches Err(WasmError::InvalidManifest(what))
                &&& what@ == found
            },
            None => {
                &&& r matches Ok(manifest)
                &&& is_made_of(manifest, fields)
            },
        },
    }
}

/// Whether a text field is what a member of a document says.
pub open spec fn is_text_member(field: TextField, member: Option<Seq<char>>) -> bool {
    match member {
        None => field is Missing,
        Some(value) => match json::json_held_text(value) {
            Some(text) => field matches TextField::Text(held) && held@ == text,
            None => field is Mistyped,
        },
    }
}

/// What a member of a document says of a number field.
pub open spec fn number_member(member: Option<Seq<char>>) -> NumberField {
    match member {
        None => NumberField::Missing,
        Some(value) => match json::json_held_number(value) {
            Some(n) => NumberField::Number(n),
            None => NumberField::Mistyped,
        },
    }
}

/// What a document says of the limits. They may be a table or a list; what a list
/// holds beyond them does not count.
pub open spec fn limits_in(document: Seq<char>) -> LimitsField {
    if json::toml_at(document, "/limits"@) is None {
        LimitsField::Missing
    } else if json::toml_object_at(document, "/limits"@) {
        LimitsField::Given {
            max_memory_bytes: number_member(json::toml_at(document, "/limits/max_memory_bytes"@)),
            epoch_deadline_ticks: number_member(
                json::toml_at(document, "/limits/epoch_deadline_ticks"@),
            ),
        }
    } else if json::toml_array_at(document, "/limits"@) {
        LimitsField::Given {
            max_memory_bytes: number_member(json::toml_at(document, "/limits/0"@)),
            epoch_deadline_ticks: number_member(json::toml_at(document, "/limits/1"@)),
        }
    } else {
        LimitsField::Mistyped
    }
}

/// What a value that may be missing holds.
pub open spec fn value_of(value: Option<Json>) -> Option<Seq<char>> {
    match value {
        Some(value) => Some(value@),
        None => None,
    }
}

/// Whether these are the fields of a document.
pub open spec fn are_fields(fields: ManifestFields, document: Seq<char>) -> bool {
    &&& is_text_member(fields.name, json::toml_at(document, "/name"@))
    &&& is_text_member(fields.description, json::toml_at(document, "/description"@))
    &&& is_text_member(fields.version, json::toml_at(document, "/version"@))
    &&& is_text_member(fields.wasm, json::toml_at(document, "/wasm"@))
    &&& fields.limits == limits_in(document)
    &&& value_of(fields.parameters) == json::toml_at(document, "/parameters"@)
}

/// Whether a document gives this result.
pub open spec fn gives(document: Seq<char>, r: Result<WasmToolManifest, WasmError>) -> bool {
    exists|fields: ManifestFields| #[trigger] are_fields(fields, document) && outcome(fields, r)
}

impl WasmToolManifest {
    /// What is wrong with the values of this manifest, if anything is.
    pub open spec fn spec_flaw(&self) -> Option<Seq<char>> {
        flaw(
            self.name@,
            self.description@,
            self.wasm@,
            self.limits.max_memory_bytes as nat,
        )
    }

    /// Validate the manifest fields and enforce hard caps.
    pub fn validate(&self) -> (r: Result<(), WasmError>)
        ensures
            match r {
                Ok(()) => self.spec_flaw() is None,
                Err(error) => error matches WasmError::InvalidManifest(what) && self.spec_flaw()
                    == Some(what@),
            },
    {
        if text::is_blank(self.name.as_str()) {
            return Err(WasmError::InvalidManifest("manifest: name must not be empty".to_owned()));
        }
        if text::is_blank(self.description.as_str()) {
            return Err(
                WasmError::InvalidManifest("manifest: description must not be empty".to_owned()),
            );
        }
        if text::is_blank(self.wasm.as_str()) {
            return Err(
                WasmError::InvalidManifest("manifest: wasm path must not be empty".to_owned()),
            );
        }
        if self.limits.max_memory_bytes > MAX_MEMORY_HARD_CAP {
            let mut message = join3(
                "manifest: max_memory_bytes (",
                decimal_text(self.limits.max_memory_bytes as u64).as_str(),
                ") exceeds hard cap (",
            );
            message.append(decimal_text(MAX_MEMORY_HARD_CAP as u64).as_str());
            message.append(")");
            return Err(WasmError::InvalidManifest(message));
        }
        Ok(())
    }

    /// What the LLM sees of the tool. A tool that names no parameters takes any
    /// object.
    pub fn tool_spec(&self) -> (r: ToolSpec)
        ensures
            r.name@ == self.name@,
            r.description@ == self.description@,
            r.parameters@ == (match self.parameters {
                Some(parameters) => parameters@,
                None => "{\"type\":\"object\"}"@,
            }),
    {
        let parameters = match &self.parameters {
            Some(parameters) => parameters.clone(),
            None => Json::object_schema(),
        };
        ToolSpec { name: self.name.clone(), description: self.description.clone(), parameters }
    }

    /// Whether the binary that the manifest refers to is there.
    pub fn check_binary(&self, is_file: bool, wasm_path: &str, manifest_path: &str) -> (r: Result<
        (),
        WasmError,
    >)
        ensures
            match r {
                Ok(()) => is_file,
                Err(error) => {
                    &&& !is_file
                    &&& error matches WasmError::MissingBinary { wasm_path: w, manifest_path: m }
                    &&& w@ == wasm_path@
                    &&& m@ == manifest_path@
                },
            },
    {
        if is_file {
            Ok(())
        } else {
            Err(
                WasmError::MissingBinary {
                    wasm_path: wasm_path.to_owned(),
                    manifest_path: manifest_path.to_owned(),
                },
            )
        }
    }

    /// Parse and validate a manifest from TOML string content.
    pub fn parse(toml_str: &str) -> (r: Result<Self, WasmError>)
        ensures
            match json::toml_error(toml_str@) {
                None => gives(toml_str@, r),
                Some(message) => {
                    &&& r matches Err(WasmError::ManifestParse(what))
                    &&& what@ == message
                },
            },
    {
        match TomlDocument::parse(toml_str) {
            Ok(document) => {
                let fields = ManifestFields::read(&document);
                let ghost read = fields;
                let r = WasmToolManifest::from_fields(fields);
                assert(are_fields(read, document@));
                assert(outcome(read, r));
                r
            },
            Err(message) => Err(WasmError::ManifestParse(message)),
        }
    }

    /// Puts a manifest together from the fields of a document and validates it.
    pub fn from_fields(fields: ManifestFields) -> (r: Result<Self, WasmError>)
        ensures
            outcome(fields, r),
    {
        let name = match text_field(&fields.name, "name") {
            Ok(name) => name,
            Err(what) => {
                return Err(WasmError::ManifestParse(what));
            },
        };
        let description = match text_field(&fields.description, "description") {
            Ok(description) => description,
            Err(what) => {
                return Err(WasmError::ManifestParse(what));
            },
        };
        let version = match text_field(&fields.version, "version") {
            Ok(version) => version,
            Err(what) => {
                return Err(WasmError::ManifestParse(what));
            },
        };
        let wasm = match text_field(&fields.wasm, "wasm") {
            Ok(wasm) => wasm,
            Err(what) => {
                return Err(WasmError::ManifestParse(what));
            },
        };
        let limits = match limits_field(fields.limits) {
            Ok(limits) => limits,
            Err(what) => {
                return Err(WasmError::ManifestParse(what));
            },
        };
        let parameters = fields.parameters;
        let manifest = WasmToolManifest { name, description, version, wasm, limits, parameters };
        match manifest.validate() {
            Ok(()) => Ok(manifest),
            Err(error) => Err(error),
        }
    }
}

impl ManifestFields {
    /// Reads the fields of a document.
    pub fn read(document: &TomlDocument) -> (r: Self)
        ensures
            are_fields(r, document@),
    {
        ManifestFields {
            name: read_text(document, "/name"),
            description: read_text(document, "/description"),
            version: read_text(document, "/version"),
            wasm: read_text(document, "/wasm"),
            limits: read_limits(document),
            parameters: document.at("/parameters"),
        }
    }
}

fn read_text(document: &TomlDocument, pointer: &str) -> (r: TextField)
    ensures
        is_text_member(r, json::toml_at(document@, pointer@)),
{
    match document.at(pointer) {
        None => TextField::Missing,
        Some(value) => match value.held_text() {
            Some(text) => TextField::Text(text),
            None => TextField::Mistyped,
        },
    }
}

fn read_number(document: &TomlDocument, pointer: &str) -> (r: NumberField)
    ensures
        r == number_member(json::toml_at(document@, pointer@)),
{
    match document.at(pointer) {
        None => NumberField::Missing,
        Some(value) => match value.held_number() {
            Some(n) => NumberField::Number(n),
            None => NumberField::Mistyped,
        },
    }
}

fn read_limits(document: &TomlDocument) -> (r: LimitsField)
    ensures
        r == limits_in(document@),
{
    if document.at("/limits").is_none() {
        LimitsField::Missing
    } else if document.is_table_at("/limits") {
        LimitsField::Given {
            max_memory_bytes: read_number(document, "/limits/max_memory_bytes"),
            epoch_deadline_ticks: read_number(document, "/limits/epoch_deadline_ticks"),
        }
    } else if document.is_list_at("/limits") {
        LimitsField::Given {
            max_memory_bytes: read_number(document, "/limits/0"),
            epoch_deadline_ticks: read_number(document, "/limits/1"),
        }
    } else {
        LimitsField::Mistyped
    }
}

fn text_field(field: &TextField, name: &str) -> (r: Result<String, String>)
    ensures
        match r {
            Ok(text) => holds(*field, text),
            Err(what) => text_complaint(*field, name@) == Some(what@),
        },
{
    match field {
        TextField::Text(text) => Ok(text.clone()),
        TextField::Missing => Err(join3("missing field `", name, "`")),
        TextField::Mistyped => Err(join3("invalid type for field `", name, "`")),
    }
}

fn number_field(field: NumberField, max: u64, default: u64, name: &str) -> (r: Result<u64, String>)
    ensures
        match r {
            Ok(n) => number_complaint(field, max as nat, name@) is None && n == number_or(
                field,
                default as nat,
            ),
            Err(what) => number_complaint(field, max as nat, name@) == Some(what@),
        },
{
    match field {
        NumberField::Missing => Ok(default),
        NumberField::Number(n) => {
            if n <= max {
                Ok(n)
            } else {
                Err(join3("invalid type for field `", name, "`"))
            }
        },
        NumberField::Mistyped => Err(join3("invalid type for field `", name, "`")),
    }
}

fn limits_field(field: LimitsField) -> (r: Result<WasmToolLimits, String>)
    ensures
        match r {
            Ok(limits) => limits_complaint(field) is None && are_limits(field, limits),
            Err(what) => limits_complaint(field) == Some(what@),
        },
{
    match field {
        LimitsField::Missing => Ok(WasmToolLimits::default()),
        LimitsField::Mistyped => Err(join3("invalid type for field `", "limits", "`")),
        LimitsField::Given { max_memory_bytes, epoch_deadline_ticks } => {
            let memory = match number_field(
                max_memory_bytes,
                usize::MAX as u64,
                DEFAULT_MAX_MEMORY_BYTES as u64,
                "max_memory_bytes",
            ) {
                Ok(memory) => memory,
                Err(what) => {
                    return Err(what);
                },
            };
            let ticks = match number_field(
                epoch_deadline_ticks,
                u64::MAX,
                DEFAULT_EPOCH_DEADLINE_TICKS,
                "epoch_deadline_ticks",
            ) {
                Ok(ticks) => ticks,
                Err(what) => {
                    return Err(what);
                },
            };
            Ok(
                WasmToolLimits {
                    max_memory_bytes: memory as usize,
                    epoch_deadline_ticks: ticks,
                },
            )
        },
    }
}

/// A manifest that was accepted asks for no more memory than the hard cap, and
/// its name, description and path are not blank.
pub proof fn law_valid_manifests_respect_the_cap(fields: ManifestFields, manifest: WasmToolManifest)
    requires
        outcome(fields, Ok(manifest)),
    ensures
        manifest.limits.max_memory_bytes <= MAX_MEMORY_HARD_CAP,
        !text::is_blank_text(manifest.name@),
        !text::is_blank_text(manifest.description@),
        !text::is_blank_text(manifest.wasm@),
{
}

/// Limits that a manifest does not mention have their defaults.
pub proof fn law_defaults_apply(fields: ManifestFields, manifest: WasmToolManifest)
    requires
        outcome(fields, Ok(manifest)),
        fields.limits is Missing,
    ensures
        manifest.limits.max_memory_bytes == DEFAULT_MAX_MEMORY_BYTES,
        manifest.limits.epoch_deadline_ticks == DEFAULT_EPOCH_DEADLINE_TICKS,
{
}

/// A manifest that was accepted says what was written: every text as it stands, every
/// limit that was given, the default for every limit that was not, and the parameters.
pub proof fn law_manifest_says_what_was_written(
    fields: ManifestFields,
    manifest: WasmToolManifest,
)
    requires
        outcome(fields, Ok(manifest)),
    ensures
        fields.name matches TextField::Text(text) && manifest.name@ == text@,
        fields.description matches TextField::Text(text) && manifest.description@ == text@,
        fields.version matches TextField::Text(text) && manifest.version@ == text@,
        fields.wasm matches TextField::Text(text) && manifest.wasm@ == text@,
        manifest.parameters == fields.parameters,
        fields.limits matches LimitsField::Given { max_memory_bytes, epoch_deadline_ticks } ==> {
            &&& max_memory_bytes matches NumberField::Number(n) ==> manifest.limits.max_memory_bytes
                == n
            &&& max_memory_bytes is Missing ==> manifest.limits.max_memory_bytes
                == DEFAULT_MAX_MEMORY_BYTES
            &&& epoch_deadline_ticks matches NumberField::Number(n)
                ==> manifest.limits.epoch_deadline_ticks == n
            &&& epoch_deadline_ticks is Missing ==> manifest.limits.epoch_deadline_ticks
                == DEFAULT_EPOCH_DEADLINE_TICKS
        },
{
}

/// A manifest is accepted if and only if its four texts are there, its limits are
/// numbers where they are given, nothing of name, description and path is blank, and
/// it asks for no more memory than the hard cap. What is missing or of the wrong kind
/// does not parse; what is not acceptable is invalid.
pub proof fn law_acceptable_manifests_are_accepted(
    fields: ManifestFields,
    r: Result<WasmToolManifest, WasmError>,
)
    requires
        outcome(fields, r),
    ensures
        ({
            let texts = fields.name is Text && fields.description is Text && fields.version is Text
                && fields.wasm is Text;
            let numbers = match fields.limits {
                LimitsField::Missing => true,
                LimitsField::Mistyped => false,
                LimitsField::Given { max_memory_bytes, epoch_deadline_ticks } => {
                    &&& !(max_memory_bytes is Mistyped)
                    &&& !(epoch_deadline_ticks is Mistyped)
                    &&& max_memory_bytes matches NumberField::Number(n) ==> n <= usize::MAX
                },
            };
            let asked: int = match fields.limits {
                LimitsField::Given { max_memory_bytes: NumberField::Number(n), .. } => n as int,
                _ => DEFAULT_MAX_MEMORY_BYTES as int,
            };
            let acceptable = {
                &&& !text::is_blank_text(fields.name->Text_0@)
                &&& !text::is_blank_text(fields.description->Text_0@)
                &&& !text::is_blank_text(fields.wasm->Text_0@)
                &&& asked <= MAX_MEMORY_HARD_CAP
            };
            &&& r is Ok <==> texts && numbers && acceptable
            &&& (r matches Err(WasmError::ManifestParse(_))) <==> !(texts && numbers)
            &&& (r matches Err(WasmError::InvalidManifest(_))) <==> texts && numbers
                && !acceptable
        }),
{
}

/// The fields are those that stand in the document under their names: a text field
/// holds the text there, and is missing only if nothing is there.
pub proof fn law_fields_stand_under_their_names(fields: ManifestFields, document: Seq<char>)
    requires
        are_fields(fields, document),
    ensures
        fields.name is Missing <==> json::toml_at(document, "/name"@) is None,
        fields.name matches TextField::Text(text) ==> json::json_held_text(
            json::toml_at(document, "/name"@)->0,
        ) == Some(text@),
        fields.description is Missing <==> json::toml_at(document, "/description"@) is None,
        fields.description matches TextField::Text(text) ==> json::json_held_text(
            json::toml_at(document, "/description"@)->0,
        ) == Some(text@),
        fields.version is Missing <==> json::toml_at(document, "/version"@) is None,
        fields.version matches TextField::Text(text) ==> json::json_held_text(
            json::toml_at(document, "/version"@)->0,
        ) == Some(text@),
        fields.wasm is Missing <==> json::toml_at(document, "/wasm"@) is None,
        fields.wasm matches TextField::Text(text) ==> json::json_held_text(
            json::toml_at(document, "/wasm"@)->0,
        ) == Some(text@),
        fields.limits is Missing <==> json::toml_at(document, "/limits"@) is None,
        match fields.parameters {
            Some(parameters) => json::toml_at(document, "/parameters"@) == Some(parameters@),
            None => json::toml_at(document, "/parameters"@) is None,
        },
{
}

/// The limits of a document are read by name from a table and by place from a list:
/// memory first, ticks second.
pub proof fn law_limits_are_a_table_or_a_list(document: Seq<char>, n: u64)
    requires
        json::toml_at(document, "/limits"@) is Some,
    ensures
        json::toml_object_at(document, "/limits"@) ==> {
            &&& limits_in(document) matches LimitsField::Given {
                max_memory_bytes,
                epoch_deadline_ticks,
            }
            &&& max_memory_bytes is Missing <==> json::toml_at(
                document,
                "/limits/max_memory_bytes"@,
            ) is None
            &&& max_memory_bytes == NumberField::Number(n) ==> json::json_held_number(
                json::toml_at(document, "/limits/max_memory_bytes"@)->0,
            ) == Some(n)
            &&& epoch_deadline_ticks is Missing <==> json::toml_at(
                document,
                "/limits/epoch_deadline_ticks"@,
            ) is None
            &&& epoch_deadline_ticks == NumberField::Number(n) ==> json::json_held_number(
                json::toml_at(document, "/limits/epoch_deadline_ticks"@)->0,
            ) == Some(n)
        },
        !json::toml_object_at(document, "/limits"@) && json::toml_array_at(document, "/limits"@)
            ==> {
            &&& limits_in(document) matches LimitsField::Given {
                max_memory_bytes,
                epoch_deadline_ticks,
            }
            &&& max_memory_bytes is Missing <==> json::toml_at(document, "/limits/0"@) is None
            &&& max_memory_bytes == NumberField::Number(n) ==> json::json_held_number(
                json::toml_at(document, "/limits/0"@)->0,
            ) == Some(n)
            &&& epoch_deadline_ticks is Missing <==> json::toml_at(document, "/limits/1"@) is None
            &&& epoch_deadline_ticks == NumberField::Number(n) ==> json::json_held_number(
                json::toml_at(document, "/limits/1"@)->0,
            ) == Some(n)
        },
        !json::toml_object_at(document, "/limits"@) && !json::toml_array_at(
            document,
            "/limits"@,
        ) ==> limits_in(document) is Mistyped,
{
}

/// A document that gives a manifest holds its texts under their names, and the manifest
/// has the document's parameters.
pub proof fn law_manifest_is_that_of_the_document(
    document: Seq<char>,
    manifest: WasmToolManifest,
)
    requires
        gives(document, Ok(manifest)),
    ensures
        json::json_held_text(json::toml_at(document, "/name"@)->0) == Some(manifest.name@),
        json::json_held_text(json::toml_at(document, "/description"@)->0) == Some(
            manifest.description@,
        ),
        json::json_held_text(json::toml_at(document, "/version"@)->0) == Some(manifest.version@),
        json::json_held_text(json::toml_at(document, "/wasm"@)->0) == Some(manifest.wasm@),
        json::toml_at(document, "/limits"@) is None ==> manifest.limits.max_memory_bytes
            == DEFAULT_MAX_MEMORY_BYTES && manifest.limits.epoch_deadline_ticks
            == DEFAULT_EPOCH_DEADLINE_TICKS,
        match manifest.parameters {
            Some(parameters) => json::toml_at(document, "/parameters"@) == Some(parameters@),
            None => json::toml_at(document, "/parameters"@) is None,
        },
        !text::is_blank_text(manifest.name@),
        manifest.limits.max_memory_bytes <= MAX_MEMORY_HARD_CAP,
        manifest.spec_flaw() is None,
{
    let fields = choose|fields: ManifestFields| #[trigger]
        are_fields(fields, document) && outcome(fields, Ok(manifest));
    law_fields_stand_under_their_names(fields, document);
    law_manifest_says_what_was_written(fields, manifest);
}

/// A manifest has no flaw if and only if nothing of name, description and path is blank
/// and it asks for no more memory than the hard cap.
pub proof fn law_flaws_are_blanks_and_too_much_memory(manifest: WasmToolManifest)
    ensures
        manifest.spec_flaw() is None <==> {
            &&& !text::is_blank_text(manifest.name@)
            &&& !text::is_blank_text(manifest.description@)
            &&& !text::is_blank_text(manifest.wasm@)
            &&& manifest.limits.max_memory_bytes <= MAX_MEMORY_HARD_CAP
        },
{
}

} // verus!
