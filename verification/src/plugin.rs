//! The sandboxed-plugin destination: the versioned wire payload a module
//! receives on its inbound stream, the module sources, and the
//! classification of how a module run ended. Loading and running the module
//! in its isolated runtime happens outside the library; everything the run
//! is fed, and everything its ending means, is decided here.

use vstd::prelude::*;
use vstd::string::StringExecFns;

use crate::credentials::ProfileCredentials;
use crate::error::Error;
use crate::json::{
    json_view, obj_get, parse_json_complete, print_model, FieldModel, JsonField, JsonModel,
    JsonValue,
};
use crate::json::json_view_fields;
use crate::profile::opt_chars;
use crate::shell::Shell;
use crate::timestamp::{rfc3339_chars, spec_parse_rfc3339, Timestamp};

verus! {

/// The wire schema version this host writes.
pub open spec fn schema_version_chars() -> Seq<char> {
    "0.1.0"@
}

/// The schema version, as a string.
pub fn schema_version() -> (r: String)
    ensures
        r@ == schema_version_chars(),
{
    String::from_str("0.1.0")
}

/// The wire value sent to a sandboxed plugin: the schema version, an
/// optional shell-family hint, and the delivery unit. A forward-compatible
/// plugin checks the version before interpreting the rest; unknown fields
/// never break the known ones.
#[derive(Debug, Clone)]
pub struct PluginPayload {
    pub version: String,
    pub shell: Option<Shell>,
    pub credentials: ProfileCredentials,
}

/// The shell hint, as data.
pub enum ShellModel {
    Bash,
    Zsh,
    Fish,
    Unknown(Seq<char>),
}

/// What a shell value says.
pub open spec fn shell_model(sh: Shell) -> ShellModel {
    match sh {
        Shell::Bash => ShellModel::Bash,
        Shell::Zsh => ShellModel::Zsh,
        Shell::Fish => ShellModel::Fish,
        Shell::Unknown(u) => ShellModel::Unknown(u@),
    }
}

/// Everything a payload says, flattened to plain data.
#[verifier::ext_equal]
pub struct PayloadModel {
    pub version: Seq<char>,
    pub shell: Option<ShellModel>,
    pub profile_name: Seq<char>,
    pub region_name: Seq<char>,
    pub key: Seq<char>,
    pub secret: Seq<char>,
    pub token: Option<Seq<char>>,
    pub expires_at: Option<Timestamp>,
}

/// What a payload says.
pub open spec fn payload_view(p: PluginPayload) -> PayloadModel {
    PayloadModel {
        version: p.version@,
        shell: match p.shell {
            Some(sh) => Some(shell_model(sh)),
            None => None,
        },
        profile_name: p.credentials.profile_name@,
        region_name: p.credentials.region_name@,
        key: p.credentials.credentials.key@,
        secret: p.credentials.credentials.secret@,
        token: opt_chars(p.credentials.credentials.token),
        expires_at: p.credentials.credentials.expires_at,
    }
}

/// A payload is well formed when its expiry, if present, is a well-formed
/// timestamp.
pub open spec fn payload_wf(p: PluginPayload) -> bool {
    crate::handler::wf_credentials(p.credentials)
}

impl PluginPayload {
    /// Builds the payload for one delivery, under this host's schema
    /// version.
    pub fn new(shell: Option<Shell>, credentials: ProfileCredentials) -> (r: PluginPayload)
        ensures
            r.version@ == schema_version_chars(),
            r.shell == shell,
            r.credentials == credentials,
    {
        PluginPayload { version: schema_version(), shell, credentials }
    }
}

/// The shell hint on the wire: absent is `null`, a known family is its
/// name, and an unrecognized family is carried verbatim under `Unknown`.
pub open spec fn shell_json(sh: Option<ShellModel>) -> JsonModel {
    match sh {
        None => JsonModel::Null,
        Some(ShellModel::Bash) => JsonModel::Str("Bash"@),
        Some(ShellModel::Zsh) => JsonModel::Str("Zsh"@),
        Some(ShellModel::Fish) => JsonModel::Str("Fish"@),
        Some(ShellModel::Unknown(u)) => JsonModel::Obj(
            seq![FieldModel { key: "Unknown"@, value: JsonModel::Str(u) }],
        ),
    }
}

/// An optional string on the wire: absent is `null`.
pub open spec fn opt_str_json(o: Option<Seq<char>>) -> JsonModel {
    match o {
        None => JsonModel::Null,
        Some(s) => JsonModel::Str(s),
    }
}

/// The whole payload on the wire.
pub open spec fn payload_json(m: PayloadModel) -> JsonModel {
    JsonModel::Obj(
        seq![
            FieldModel { key: "version"@, value: JsonModel::Str(m.version) },
            FieldModel { key: "shell"@, value: shell_json(m.shell) },
            FieldModel {
                key: "credentials"@,
                value: JsonModel::Obj(
                    seq![
                        FieldModel { key: "profile_name"@, value: JsonModel::Str(m.profile_name) },
                        FieldModel { key: "region_name"@, value: JsonModel::Str(m.region_name) },
                        FieldModel {
                            key: "credentials"@,
                            value: JsonModel::Obj(
                                seq![
                                    FieldModel { key: "key"@, value: JsonModel::Str(m.key) },
                                    FieldModel { key: "secret"@, value: JsonModel::Str(m.secret) },
                                    FieldModel { key: "token"@, value: opt_str_json(m.token) },
                                    FieldModel {
                                        key: "expires_at"@,
                                        value: match m.expires_at {
                                            Some(ts) => JsonModel::Str(rfc3339_chars(ts)),
                                            None => JsonModel::Null,
                                        },
                                    },
                                ],
                            ),
                        },
                    ],
                ),
            },
        ],
    )
}

/// Builds the executable tree for a shell hint.
fn shell_json_exec(sh: &Option<Shell>) -> (r: JsonValue)
    ensures
        json_view(r) == shell_json(
            match *sh {
                Some(s) => Some(shell_model(s)),
                None => None,
            },
        ),
{
    match sh {
        None => JsonValue::Null,
        Some(Shell::Bash) => JsonValue::Str(String::from_str("Bash")),
        Some(Shell::Zsh) => JsonValue::Str(String::from_str("Zsh")),
        Some(Shell::Fish) => JsonValue::Str(String::from_str("Fish")),
        Some(Shell::Unknown(u)) => {
            let mut fields: Vec<JsonField> = Vec::new();
            fields.push(JsonField { key: String::from_str("Unknown"), value: JsonValue::Str(u.clone()) });
            let ghost fv = fields@;
            let r = JsonValue::Obj(fields);
            proof {
                crate::json::lemma_json_view_fields_index(fv);
                assert(json_view_fields(fv) =~= seq![
                    FieldModel { key: "Unknown"@, value: JsonModel::Str(u@) },
                ]);
                assert(json_view(r) =~~= shell_json(Some(ShellModel::Unknown(u@))));
            }
            r
        },
    }
}

/// Builds the executable tree for an optional string.
fn opt_str_json_exec(o: &Option<String>) -> (r: JsonValue)
    ensures
        json_view(r) == opt_str_json(opt_chars(*o)),
{
    match o {
        None => JsonValue::Null,
        Some(s) => JsonValue::Str(s.clone()),
    }
}

/// Serializes the payload to its wire text.
pub fn to_wire(p: &PluginPayload) -> (r: String)
    requires
        payload_wf(*p),
    ensures
        r@ == print_model(payload_json(payload_view(*p))),
{
    let expiry_json: JsonValue = match &p.credentials.credentials.expires_at {
        Some(ts) => JsonValue::Str(ts.rfc3339()),
        None => JsonValue::Null,
    };
    let mut inner: Vec<JsonField> = Vec::new();
    inner.push(JsonField {
        key: String::from_str("key"),
        value: JsonValue::Str(p.credentials.credentials.key.clone()),
    });
    inner.push(JsonField {
        key: String::from_str("secret"),
        value: JsonValue::Str(p.credentials.credentials.secret.clone()),
    });
    inner.push(JsonField {
        key: String::from_str("token"),
        value: opt_str_json_exec(&p.credentials.credentials.token),
    });
    inner.push(JsonField { key: String::from_str("expires_at"), value: expiry_json });
    let ghost inner_view = inner@;
    let mut creds: Vec<JsonField> = Vec::new();
    creds.push(JsonField {
        key: String::from_str("profile_name"),
        value: JsonValue::Str(p.credentials.profile_name.clone()),
    });
    creds.push(JsonField {
        key: String::from_str("region_name"),
        value: JsonValue::Str(p.credentials.region_name.clone()),
    });
    creds.push(JsonField { key: String::from_str("credentials"), value: JsonValue::Obj(inner) });
    let ghost creds_view = creds@;
    let mut top: Vec<JsonField> = Vec::new();
    top.push(JsonField { key: String::from_str("version"), value: JsonValue::Str(p.version.clone()) });
    top.push(JsonField { key: String::from_str("shell"), value: shell_json_exec(&p.shell) });
    top.push(JsonField { key: String::from_str("credentials"), value: JsonValue::Obj(creds) });
    let tree = JsonValue::Obj(top);
    proof {
        let m = payload_view(*p);
        crate::json::lemma_json_view_fields_index(inner_view);
        assert(inner_view.len() == 4);
        assert(inner_view[0].key@ == "key"@ && json_view(inner_view[0].value) == JsonModel::Str(
            m.key,
        ));
        assert(inner_view[1].key@ == "secret"@ && json_view(inner_view[1].value)
            == JsonModel::Str(m.secret));
        assert(inner_view[2].key@ == "token"@ && json_view(inner_view[2].value) == opt_str_json(
            m.token,
        ));
        assert(inner_view[3].key@ == "expires_at"@);
        assert(crate::json::json_view_fields(inner_view) =~~= seq![
            FieldModel { key: "key"@, value: JsonModel::Str(m.key) },
            FieldModel { key: "secret"@, value: JsonModel::Str(m.secret) },
            FieldModel { key: "token"@, value: opt_str_json(m.token) },
            FieldModel {
                key: "expires_at"@,
                value: match m.expires_at {
                    Some(ts) => JsonModel::Str(rfc3339_chars(ts)),
                    None => JsonModel::Null,
                },
            },
        ]);
        crate::json::lemma_json_view_fields_index(creds_view);
        assert(creds_view.len() == 3);
        assert(creds_view[0].key@ == "profile_name"@ && json_view(creds_view[0].value)
            == JsonModel::Str(m.profile_name));
        assert(creds_view[1].key@ == "region_name"@ && json_view(creds_view[1].value)
            == JsonModel::Str(m.region_name));
        assert(creds_view[2].key@ == "credentials"@);
        assert(crate::json::json_view_fields(creds_view) =~~= seq![
            FieldModel { key: "profile_name"@, value: JsonModel::Str(m.profile_name) },
            FieldModel { key: "region_name"@, value: JsonModel::Str(m.region_name) },
            FieldModel {
                key: "credentials"@,
                value: JsonModel::Obj(crate::json::json_view_fields(inner_view)),
            },
        ]);
        crate::json::lemma_json_view_fields_index(top@);
        assert(top@.len() == 3);
        assert(top@[0].key@ == "version"@ && json_view(top@[0].value) == JsonModel::Str(m.version));
        assert(top@[1].key@ == "shell"@ && json_view(top@[1].value) == shell_json(m.shell));
        assert(top@[2].key@ == "credentials"@);
        assert(crate::json::json_view_fields(top@) =~~= seq![
            FieldModel { key: "version"@, value: JsonModel::Str(m.version) },
            FieldModel { key: "shell"@, value: shell_json(m.shell) },
            FieldModel {
                key: "credentials"@,
                value: JsonModel::Obj(crate::json::json_view_fields(creds_view)),
            },
        ]);
        assert(json_view(tree) =~~= payload_json(m));
    }
    crate::json::to_json_string(&tree)
}


/// What a wire value means as a shell hint: `null` means no hint, a known
/// name means its family, an `Unknown` object carries the verbatim family;
/// anything else is not a hint.
pub open spec fn shell_from_json(v: JsonModel) -> Option<Option<ShellModel>> {
    match v {
        JsonModel::Null => Some(None),
        JsonModel::Str(x) => if x == "Bash"@ {
            Some(Some(ShellModel::Bash))
        } else if x == "Zsh"@ {
            Some(Some(ShellModel::Zsh))
        } else if x == "Fish"@ {
            Some(Some(ShellModel::Fish))
        } else {
            None
        },
        JsonModel::Obj(fs) => match obj_get(fs, "Unknown"@) {
            Some(JsonModel::Str(u)) => Some(Some(ShellModel::Unknown(u))),
            _ => None,
        },
        _ => None,
    }
}

/// What a wire value means as an optional string: `null` means absent.
pub open spec fn opt_str_from_json(v: JsonModel) -> Option<Option<Seq<char>>> {
    match v {
        JsonModel::Null => Some(None),
        JsonModel::Str(x) => Some(Some(x)),
        _ => None,
    }
}

/// What a wire value means as an optional expiry: `null` means absent, a
/// string must read as RFC 3339.
pub open spec fn expiry_from_json(v: JsonModel) -> Option<Option<Timestamp>> {
    match v {
        JsonModel::Null => Some(None),
        JsonModel::Str(x) => match spec_parse_rfc3339(x) {
            Some(ts) => Some(Some(ts)),
            None => None,
        },
        _ => None,
    }
}

/// The field's value, with an absent field reading as `null` — a payload
/// from a writer that omits an optional field still reads.
pub open spec fn field_or_null(fs: Seq<FieldModel>, key: Seq<char>) -> JsonModel {
    match obj_get(fs, key) {
        Some(v) => v,
        None => JsonModel::Null,
    }
}

/// What a complete wire tree means as a payload, field by field; fields
/// beyond the known ones are ignored.
pub open spec fn extract_payload(m: JsonModel) -> Option<PayloadModel> {
    match m {
        JsonModel::Obj(fs) => match obj_get(fs, "version"@) {
            Some(JsonModel::Str(version)) => match shell_from_json(field_or_null(fs, "shell"@)) {
                Some(shell) => match obj_get(fs, "credentials"@) {
                    Some(JsonModel::Obj(cs)) => match obj_get(cs, "profile_name"@) {
                        Some(JsonModel::Str(profile_name)) => match obj_get(cs, "region_name"@) {
                            Some(JsonModel::Str(region_name)) => match obj_get(
                                cs,
                                "credentials"@,
                            ) {
                                Some(JsonModel::Obj(inner)) => match obj_get(inner, "key"@) {
                                    Some(JsonModel::Str(key)) => match obj_get(inner, "secret"@) {
                                        Some(JsonModel::Str(secret)) => match opt_str_from_json(
                                            field_or_null(inner, "token"@),
                                        ) {
                                            Some(token) => match expiry_from_json(
                                                field_or_null(inner, "expires_at"@),
                                            ) {
                                                Some(expires_at) => Some(
                                                    PayloadModel {
                                                        version,
                                                        shell,
                                                        profile_name,
                                                        region_name,
                                                        key,
                                                        secret,
                                                        token,
                                                        expires_at,
                                                    },
                                                ),
                                                None => None,
                                            },
                                            None => None,
                                        },
                                        _ => None,
                                    },
                                    _ => None,
                                },
                                _ => None,
                            },
                            _ => None,
                        },
                        _ => None,
                    },
                    _ => None,
                },
                None => None,
            },
            _ => None,
        },
        _ => None,
    }
}

/// What a wire text means as a payload.
pub open spec fn spec_parse_payload(s: Seq<char>) -> Option<PayloadModel> {
    match parse_json_complete(s) {
        Some(m) => extract_payload(m),
        None => None,
    }
}

/// Reads a shell hint off a wire tree; matches `shell_from_json`.
fn shell_from_json_exec(v: &JsonValue) -> (r: Option<Option<Shell>>)
    ensures
        match r {
            Some(sh) => shell_from_json(json_view(*v)) == Some(
                match sh {
                    Some(x) => Some(shell_model(x)),
                    None => None::<ShellModel>,
                },
            ),
            None => shell_from_json(json_view(*v)) is None,
        },
{
    proof {
        reveal_strlit("Bash");
        reveal_strlit("Zsh");
        reveal_strlit("Fish");
    }
    match v {
        JsonValue::Null => Some(None),
        JsonValue::Str(x) => {
            if crate::text::str_eq_str(x.as_str(), "Bash") {
                Some(Some(Shell::Bash))
            } else if crate::text::str_eq_str(x.as_str(), "Zsh") {
                Some(Some(Shell::Zsh))
            } else if crate::text::str_eq_str(x.as_str(), "Fish") {
                Some(Some(Shell::Fish))
            } else {
                None
            }
        },
        JsonValue::Obj(fs) => {
            match crate::json::obj_get_exec(fs, "Unknown") {
                Some(JsonValue::Str(u)) => Some(Some(Shell::Unknown(u.clone()))),
                _ => None,
            }
        },
        _ => None,
    }
}

/// Reads an optional string off a wire tree; matches `opt_str_from_json`.
fn opt_str_from_json_exec(v: &JsonValue) -> (r: Option<Option<String>>)
    ensures
        match r {
            Some(o) => opt_str_from_json(json_view(*v)) == Some(opt_chars(o)),
            None => opt_str_from_json(json_view(*v)) is None,
        },
{
    match v {
        JsonValue::Null => Some(None),
        JsonValue::Str(x) => Some(Some(x.clone())),
        _ => None,
    }
}

/// Reads an optional expiry off a wire tree; matches `expiry_from_json`.
fn expiry_from_json_exec(v: &JsonValue) -> (r: Option<Option<Timestamp>>)
    ensures
        match r {
            Some(o) => expiry_from_json(json_view(*v)) == Some(o) && (o matches Some(ts)
                ==> ts.valid()),
            None => expiry_from_json(json_view(*v)) is None,
        },
{
    match v {
        JsonValue::Null => Some(None),
        JsonValue::Str(x) => match crate::timestamp::parse_rfc3339(x.as_str()) {
            Some(ts) => Some(Some(ts)),
            None => None,
        },
        _ => None,
    }
}

/// Reads a payload back from its wire text; matches `spec_parse_payload`.
/// A text a reader cannot make a payload of reads as nothing.
pub fn from_wire(s: &str) -> (r: Option<PluginPayload>)
    ensures
        match r {
            Some(p) => spec_parse_payload(s@) == Some(payload_view(p)) && payload_wf(p),
            None => spec_parse_payload(s@) is None,
        },
{
    let tree = match crate::json::parse_json_text(s) {
        Some(t) => t,
        None => {
            return None;
        },
    };
    let fs = match &tree {
        JsonValue::Obj(fs) => fs,
        _ => {
            return None;
        },
    };
    let version: String = match crate::json::obj_get_exec(fs, "version") {
        Some(JsonValue::Str(x)) => x.clone(),
        _ => {
            return None;
        },
    };
    let shell_field: Option<&JsonValue> = crate::json::obj_get_exec(fs, "shell");
    let shell: Option<Shell> = match shell_field {
        None => None,
        Some(v) => match shell_from_json_exec(v) {
            Some(sh) => sh,
            None => {
                return None;
            },
        },
    };
    let cs = match crate::json::obj_get_exec(fs, "credentials") {
        Some(JsonValue::Obj(cs)) => cs,
        _ => {
            return None;
        },
    };
    let profile_name: String = match crate::json::obj_get_exec(cs, "profile_name") {
        Some(JsonValue::Str(x)) => x.clone(),
        _ => {
            return None;
        },
    };
    let region_name: String = match crate::json::obj_get_exec(cs, "region_name") {
        Some(JsonValue::Str(x)) => x.clone(),
        _ => {
            return None;
        },
    };
    let inner = match crate::json::obj_get_exec(cs, "credentials") {
        Some(JsonValue::Obj(inner)) => inner,
        _ => {
            return None;
        },
    };
    let key: String = match crate::json::obj_get_exec(inner, "key") {
        Some(JsonValue::Str(x)) => x.clone(),
        _ => {
            return None;
        },
    };
    let secret: String = match crate::json::obj_get_exec(inner, "secret") {
        Some(JsonValue::Str(x)) => x.clone(),
        _ => {
            return None;
        },
    };
    let token_field: Option<&JsonValue> = crate::json::obj_get_exec(inner, "token");
    let token: Option<String> = match token_field {
        None => None,
        Some(v) => match opt_str_from_json_exec(v) {
            Some(o) => o,
            None => {
                return None;
            },
        },
    };
    let expiry_field: Option<&JsonValue> = crate::json::obj_get_exec(inner, "expires_at");
    let expires_at: Option<Timestamp> = match expiry_field {
        None => None,
        Some(v) => match expiry_from_json_exec(v) {
            Some(o) => o,
            None => {
                return None;
            },
        },
    };
    Some(
        PluginPayload {
            version,
            shell,
            credentials: ProfileCredentials {
                profile_name,
                region_name,
                credentials: crate::credentials::Credentials {
                    key,
                    secret,
                    token,
                    expires_at,
                },
            },
        },
    )
}


/// A payload model is well formed when its expiry, if present, is a
/// well-formed timestamp.
pub open spec fn model_wf(m: PayloadModel) -> bool {
    match m.expires_at {
        Some(ts) => ts.valid(),
        None => true,
    }
}

/// The wire tree of a payload holds only what the writer can emit.
proof fn lemma_payload_json_printable(m: PayloadModel)
    ensures
        crate::json::printable(payload_json(m)),
{
    let inner = seq![
        FieldModel { key: "key"@, value: JsonModel::Str(m.key) },
        FieldModel { key: "secret"@, value: JsonModel::Str(m.secret) },
        FieldModel { key: "token"@, value: opt_str_json(m.token) },
        FieldModel {
            key: "expires_at"@,
            value: match m.expires_at {
                Some(ts) => JsonModel::Str(rfc3339_chars(ts)),
                None => JsonModel::Null,
            },
        },
    ];
    let cs = seq![
        FieldModel { key: "profile_name"@, value: JsonModel::Str(m.profile_name) },
        FieldModel { key: "region_name"@, value: JsonModel::Str(m.region_name) },
        FieldModel { key: "credentials"@, value: JsonModel::Obj(inner) },
    ];
    let fs = seq![
        FieldModel { key: "version"@, value: JsonModel::Str(m.version) },
        FieldModel { key: "shell"@, value: shell_json(m.shell) },
        FieldModel { key: "credentials"@, value: JsonModel::Obj(cs) },
    ];
    assert(payload_json(m) == JsonModel::Obj(fs));
    reveal_with_fuel(crate::json::all_fields_printable, 6);
    assert(crate::json::printable(shell_json(m.shell))) by {
        match m.shell {
            Some(ShellModel::Unknown(u)) => {
                let g = seq![FieldModel { key: "Unknown"@, value: JsonModel::Str(u) }];
                assert(g.drop_first() =~= Seq::<FieldModel>::empty());
                assert(crate::json::all_fields_printable(g));
            },
            _ => {},
        }
    };
    assert(inner.drop_first() =~= seq![inner[1], inner[2], inner[3]]);
    assert(inner.drop_first().drop_first() =~= seq![inner[2], inner[3]]);
    assert(inner.drop_first().drop_first().drop_first() =~= seq![inner[3]]);
    assert(inner.drop_first().drop_first().drop_first().drop_first()
        =~= Seq::<FieldModel>::empty());
    assert(crate::json::all_fields_printable(inner));
    assert(cs.drop_first() =~= seq![cs[1], cs[2]]);
    assert(cs.drop_first().drop_first() =~= seq![cs[2]]);
    assert(cs.drop_first().drop_first().drop_first() =~= Seq::<FieldModel>::empty());
    assert(crate::json::all_fields_printable(cs));
    assert(fs.drop_first() =~= seq![fs[1], fs[2]]);
    assert(fs.drop_first().drop_first() =~= seq![fs[2]]);
    assert(fs.drop_first().drop_first().drop_first() =~= Seq::<FieldModel>::empty());
    assert(crate::json::all_fields_printable(fs));
}

/// The distinct field names of the wire schema.
proof fn lemma_schema_keys_distinct()
    ensures
        "version"@ != "shell"@,
        "version"@ != "credentials"@,
        "shell"@ != "credentials"@,
        "profile_name"@ != "region_name"@,
        "profile_name"@ != "credentials"@,
        "region_name"@ != "credentials"@,
        "key"@ != "secret"@,
        "key"@ != "token"@,
        "key"@ != "expires_at"@,
        "secret"@ != "token"@,
        "secret"@ != "expires_at"@,
        "token"@ != "expires_at"@,
        "Bash"@ != "Zsh"@,
        "Bash"@ != "Fish"@,
        "Zsh"@ != "Fish"@,
{
    reveal_strlit("version");
    reveal_strlit("shell");
    reveal_strlit("credentials");
    reveal_strlit("profile_name");
    reveal_strlit("region_name");
    reveal_strlit("key");
    reveal_strlit("secret");
    reveal_strlit("token");
    reveal_strlit("expires_at");
    reveal_strlit("Bash");
    reveal_strlit("Zsh");
    reveal_strlit("Fish");
    assert("version"@ != "shell"@) by {
        if "version"@ == "shell"@ {
            assert("version"@.len() == "shell"@.len());
            assert(false);
        }
    };
    assert("version"@ != "credentials"@) by {
        if "version"@ == "credentials"@ {
            assert("version"@.len() == "credentials"@.len());
            assert(false);
        }
    };
    assert("shell"@ != "credentials"@) by {
        if "shell"@ == "credentials"@ {
            assert("shell"@.len() == "credentials"@.len());
            assert(false);
        }
    };
    assert("profile_name"@ != "region_name"@) by {
        if "profile_name"@ == "region_name"@ {
            assert("profile_name"@.len() == "region_name"@.len());
            assert(false);
        }
    };
    assert("profile_name"@ != "credentials"@) by {
        if "profile_name"@ == "credentials"@ {
            assert("profile_name"@.len() == "credentials"@.len());
            assert(false);
        }
    };
    assert("region_name"@ != "credentials"@) by {
        if "region_name"@ == "credentials"@ {
            assert("region_name"@[0] == "credentials"@[0]);
            assert(false);
        }
    };
    assert("key"@ != "secret"@) by {
        if "key"@ == "secret"@ {
            assert("key"@.len() == "secret"@.len());
            assert(false);
        }
    };
    assert("key"@ != "token"@) by {
        if "key"@ == "token"@ {
            assert("key"@.len() == "token"@.len());
            assert(false);
        }
    };
    assert("key"@ != "expires_at"@) by {
        if "key"@ == "expires_at"@ {
            assert("key"@.len() == "expires_at"@.len());
            assert(false);
        }
    };
    assert("secret"@ != "token"@) by {
        if "secret"@ == "token"@ {
            assert("secret"@.len() == "token"@.len());
            assert(false);
        }
    };
    assert("secret"@ != "expires_at"@) by {
        if "secret"@ == "expires_at"@ {
            assert("secret"@.len() == "expires_at"@.len());
            assert(false);
        }
    };
    assert("token"@ != "expires_at"@) by {
        if "token"@ == "expires_at"@ {
            assert("token"@.len() == "expires_at"@.len());
            assert(false);
        }
    };
    assert("Bash"@ != "Zsh"@) by {
        if "Bash"@ == "Zsh"@ {
            assert("Bash"@.len() == "Zsh"@.len());
            assert(false);
        }
    };
    assert("Bash"@ != "Fish"@) by {
        if "Bash"@ == "Fish"@ {
            assert("Bash"@[0] == "Fish"@[0]);
            assert(false);
        }
    };
    assert("Zsh"@ != "Fish"@) by {
        if "Zsh"@ == "Fish"@ {
            assert("Zsh"@.len() == "Fish"@.len());
            assert(false);
        }
    };
}

/// Reading a payload's own wire tree back yields the payload, field for
/// field.
proof fn lemma_extract_payload_json(m: PayloadModel)
    requires
        model_wf(m),
    ensures
        extract_payload(payload_json(m)) == Some(m),
{
    lemma_schema_keys_distinct();
    reveal_with_fuel(obj_get, 5);
    let inner = seq![
        FieldModel { key: "key"@, value: JsonModel::Str(m.key) },
        FieldModel { key: "secret"@, value: JsonModel::Str(m.secret) },
        FieldModel { key: "token"@, value: opt_str_json(m.token) },
        FieldModel {
            key: "expires_at"@,
            value: match m.expires_at {
                Some(ts) => JsonModel::Str(rfc3339_chars(ts)),
                None => JsonModel::Null,
            },
        },
    ];
    let cs = seq![
        FieldModel { key: "profile_name"@, value: JsonModel::Str(m.profile_name) },
        FieldModel { key: "region_name"@, value: JsonModel::Str(m.region_name) },
        FieldModel { key: "credentials"@, value: JsonModel::Obj(inner) },
    ];
    let fs = seq![
        FieldModel { key: "version"@, value: JsonModel::Str(m.version) },
        FieldModel { key: "shell"@, value: shell_json(m.shell) },
        FieldModel { key: "credentials"@, value: JsonModel::Obj(cs) },
    ];
    assert(payload_json(m) == JsonModel::Obj(fs));
    assert(fs.drop_first() =~= seq![fs[1], fs[2]]);
    assert(fs.drop_first().drop_first() =~= seq![fs[2]]);
    assert(obj_get(fs, "version"@) == Some(JsonModel::Str(m.version)));
    assert(obj_get(fs, "shell"@) == Some(shell_json(m.shell)));
    assert(obj_get(fs, "credentials"@) == Some(JsonModel::Obj(cs)));
    assert(shell_from_json(shell_json(m.shell)) == Some(m.shell)) by {
        match m.shell {
            Some(ShellModel::Unknown(u)) => {
                let g = seq![FieldModel { key: "Unknown"@, value: JsonModel::Str(u) }];
                assert(obj_get(g, "Unknown"@) == Some(JsonModel::Str(u)));
            },
            _ => {},
        }
    };
    assert(cs.drop_first() =~= seq![cs[1], cs[2]]);
    assert(cs.drop_first().drop_first() =~= seq![cs[2]]);
    assert(obj_get(cs, "profile_name"@) == Some(JsonModel::Str(m.profile_name)));
    assert(obj_get(cs, "region_name"@) == Some(JsonModel::Str(m.region_name)));
    assert(obj_get(cs, "credentials"@) == Some(JsonModel::Obj(inner)));
    assert(inner.drop_first() =~= seq![inner[1], inner[2], inner[3]]);
    assert(inner.drop_first().drop_first() =~= seq![inner[2], inner[3]]);
    assert(inner.drop_first().drop_first().drop_first() =~= seq![inner[3]]);
    assert(obj_get(inner, "key"@) == Some(JsonModel::Str(m.key)));
    assert(obj_get(inner, "secret"@) == Some(JsonModel::Str(m.secret)));
    assert(obj_get(inner, "token"@) == Some(opt_str_json(m.token)));
    assert(opt_str_from_json(opt_str_json(m.token)) == Some(m.token));
    match m.expires_at {
        Some(ts) => {
            crate::timestamp::lemma_rfc3339_round_trip(ts);
            assert(expiry_from_json(field_or_null(inner, "expires_at"@)) == Some(m.expires_at));
        },
        None => {
            assert(expiry_from_json(field_or_null(inner, "expires_at"@)) == Some(
                None::<Timestamp>,
            ));
        },
    }
    assert(extract_payload(payload_json(m)) =~~= Some(m));
}

/// Serializing a payload and reading the text back yields the payload,
/// field for field, for every populated optional field.
pub proof fn lemma_payload_round_trip(p: PluginPayload)
    requires
        payload_wf(p),
    ensures
        spec_parse_payload(print_model(payload_json(payload_view(p)))) == Some(payload_view(p)),
{
    let m = payload_view(p);
    lemma_payload_json_printable(m);
    crate::json::lemma_json_round_trip(payload_json(m));
    lemma_extract_payload_json(m);
}


/// Where a module's bytes come from: a file on disk, or an embedded binary
/// shipped with the host under a fixed name.
#[derive(Debug, Clone)]
pub enum WasmModule {
    File(String),
    Binary(String, Vec<u8>),
}

/// The name a module run is reported under.
pub open spec fn module_name_spec(m: WasmModule) -> Seq<char> {
    match m {
        WasmModule::File(path) => "assume-rolers-plugin-"@ + (match crate::shell::spec_file_name(
            path@,
        ) {
            Some(n) => n,
            None => "unknown"@,
        }),
        WasmModule::Binary(name, _) => name@,
    }
}

impl WasmModule {
    /// The module's identifying name: a file module is named after its file
    /// name, an embedded module after its registry name.
    pub fn name(&self) -> (r: String)
        ensures
            r@ == module_name_spec(*self),
    {
        match self {
            WasmModule::File(path) => {
                let mut s = String::from_str("assume-rolers-plugin-");
                match crate::shell::file_name_of(path.as_str()) {
                    Some(n) => s.append(n.as_str()),
                    None => s.append("unknown"),
                }
                s
            },
            WasmModule::Binary(name, _) => name.clone(),
        }
    }
}

/// Runs an untrusted module in an isolated context whose only capabilities
/// are one inbound byte stream (the serialized payload) and one outbound
/// stream wired to the host's output. The isolated run itself happens
/// outside the library; this value fixes what the run is fed and how its
/// ending is read.
#[derive(Debug, Clone)]
pub struct WasmHandler {
    pub module: WasmModule,
}

impl WasmHandler {
    /// A handler for a module file on disk.
    pub fn from_file(wasm_path: &str) -> (r: WasmHandler)
        ensures
            r.module matches WasmModule::File(p) && p@ == wasm_path@,
    {
        WasmHandler { module: WasmModule::File(String::from_str(wasm_path)) }
    }

    /// A handler for an embedded module.
    pub fn from_binary(name: &str, binary: Vec<u8>) -> (r: WasmHandler)
        ensures
            r.module matches WasmModule::Binary(n, b) && n@ == name@ && b@ == binary@,
    {
        WasmHandler { module: WasmModule::Binary(String::from_str(name), binary) }
    }

    /// Everything one module run is fed: the serialized payload for its
    /// inbound stream, under this host's schema version, and the name the
    /// run is reported under.
    pub fn handle_credentials(&self, shell: Option<Shell>, credentials: ProfileCredentials) -> (r:
        (String, String))
        requires
            crate::handler::wf_credentials(credentials),
        ensures
            r.0@ == print_model(
                payload_json(delivery_payload_model(opt_shell_model(shell), credentials)),
            ),
            r.1@ == module_name_spec(self.module),
    {
        let ghost shell0 = shell;
        let ghost credentials0 = credentials;
        let payload = PluginPayload::new(shell, credentials);
        let input = to_wire(&payload);
        let name = self.module.name();
        proof {
            assert(payload_view(payload) =~~= delivery_payload_model(
                opt_shell_model(shell0),
                credentials0,
            ));
        }
        (input, name)
    }
}

/// What an optional shell value says.
pub open spec fn opt_shell_model(o: Option<Shell>) -> Option<ShellModel> {
    match o {
        Some(sh) => Some(shell_model(sh)),
        None => None,
    }
}

/// The payload model one delivery sends, under this host's schema version.
pub open spec fn delivery_payload_model(shell: Option<ShellModel>, c: ProfileCredentials) -> PayloadModel {
    PayloadModel {
        version: schema_version_chars(),
        shell,
        profile_name: c.profile_name@,
        region_name: c.region_name@,
        key: c.credentials.key@,
        secret: c.credentials.secret@,
        token: opt_chars(c.credentials.token),
        expires_at: c.credentials.expires_at,
    }
}

/// How a sandboxed module run ended, as plain data.
#[derive(Debug, Clone, PartialEq, Eq)]
pub enum ModuleOutcome {
    /// The entry point returned normally.
    Completed,
    /// The module's runtime raised an explicit exit with this code.
    ExplicitExit(i32),
    /// The run trapped; carries the runtime's description.
    Trap(String),
}

/// Classifies how a module run ended: a normal return succeeds, an
/// explicit exit with code zero is deliberately downgraded to success (a
/// known toolchain quirk), and anything else fails, carrying the module's
/// identifying name.
pub fn classify_module_outcome(module_name: &str, outcome: &ModuleOutcome) -> (r: Result<
    (),
    Error,
>)
    ensures
        match *outcome {
            ModuleOutcome::Completed => r is Ok,
            ModuleOutcome::ExplicitExit(code) => if code == 0 {
                r is Ok
            } else {
                r matches Err(Error::PluginExecutionFailed(n, _)) && n@ == module_name@
            },
            ModuleOutcome::Trap(t) => r matches Err(Error::PluginExecutionFailed(n, cause))
                && n@ == module_name@ && cause@ == t@,
        },
{
    match outcome {
        ModuleOutcome::Completed => Ok(()),
        ModuleOutcome::ExplicitExit(code) => {
            if *code == 0 {
                Ok(())
            } else {
                let mut cause = String::from_str("exit status ");
                let magnitude: u64 = if *code < 0 {
                    cause.append("-");
                    if *code == i32::MIN {
                        2147483648u64
                    } else {
                        (-*code) as u64
                    }
                } else {
                    *code as u64
                };
                cause.append(crate::text::dec_string_u64(magnitude).as_str());
                Err(Error::PluginExecutionFailed(String::from_str(module_name), cause))
            }
        },
        ModuleOutcome::Trap(t) => {
            Err(Error::PluginExecutionFailed(String::from_str(module_name), t.clone()))
        },
    }
}


/// The plugin payload text is a function of the shell hint and the
/// delivery unit alone: two serializations of the same delivery agree
/// character for character — no hidden counters.
pub proof fn lemma_plugin_delivery_idempotent(
    shell: Option<ShellModel>,
    c: ProfileCredentials,
    s1: Seq<char>,
    s2: Seq<char>,
)
    requires
        s1 == print_model(payload_json(delivery_payload_model(shell, c))),
        s2 == print_model(payload_json(delivery_payload_model(shell, c))),
    ensures
        s1 == s2,
{
}

} // verus!
