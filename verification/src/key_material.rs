//! The key material that is stored with an encrypted key, from which the key can be retrieved
//! using a KMS.

use serde_json::Map as JsonMap;
use serde_json::Value;
use vstd::prelude::*;

use crate::error::Error;
use crate::error::ErrorModel;
use crate::json::Json;
use crate::json::JsonModel;
use crate::json::Members;
use crate::json::ObjectWriter;
use crate::json::all_plain;
use crate::json::as_object;
use crate::json::get_member;
use crate::json::json_members;
use crate::json::json_parsed;
use crate::json::member;
use crate::json::object_text;
use crate::json::parse_object;
use crate::text::same_text;

verus! {

/// The information needed to unwrap an encrypted key.
#[derive(Debug)]
pub struct KeyMaterial {
    /// Whether the key material is stored in the Parquet file.
    pub internal_storage: bool,
    /// Whether the key is a footer key, as opposed to a column key.
    pub is_footer_key: bool,
    /// The identifier of the KMS instance, for a footer key.
    pub kms_instance_id: Option<String>,
    /// The URL of the KMS instance, for a footer key.
    pub kms_instance_url: Option<String>,
    /// The identifier of the master key.
    pub master_key_id: String,
    /// The data encryption key, wrapped with the key encryption key if double wrapping is used and
    /// otherwise with the master key.
    pub wrapped_dek: String,
    /// Whether a key encryption key is used.
    pub double_wrapping: bool,
    /// The base64 encoded identifier of the key encryption key, with double wrapping.
    pub key_encryption_key_id: Option<String>,
    /// The key encryption key wrapped with the master key, with double wrapping.
    pub wrapped_kek: Option<String>,
}

/// What a [`KeyMaterial`] holds.
pub struct MaterialModel {
    pub internal_storage: bool,
    pub is_footer_key: bool,
    pub kms_instance_id: Option<Seq<char>>,
    pub kms_instance_url: Option<Seq<char>>,
    pub master_key_id: Seq<char>,
    pub wrapped_dek: Seq<char>,
    pub double_wrapping: bool,
    pub key_encryption_key_id: Option<Seq<char>>,
    pub wrapped_kek: Option<Seq<char>>,
}

/// The contents of an optional string.
pub open spec fn optional(text: Option<String>) -> Option<Seq<char>> {
    match text {
        Some(s) => Some(s@),
        None => None,
    }
}

impl View for KeyMaterial {
    type V = MaterialModel;

    open spec fn view(&self) -> MaterialModel {
        MaterialModel {
            internal_storage: self.internal_storage,
            is_footer_key: self.is_footer_key,
            kms_instance_id: optional(self.kms_instance_id),
            kms_instance_url: optional(self.kms_instance_url),
            master_key_id: self.master_key_id@,
            wrapped_dek: self.wrapped_dek@,
            double_wrapping: self.double_wrapping,
            key_encryption_key_id: optional(self.key_encryption_key_id),
            wrapped_kek: optional(self.wrapped_kek),
        }
    }
}

/// What the deserialization of key material came to.
pub open spec fn material_outcome(r: Result<KeyMaterial, Error>) -> Result<
    MaterialModel,
    ErrorModel,
> {
    match r {
        Ok(material) => Ok(material@),
        Err(error) => Err(error@),
    }
}

/// The members with one more string, where there is one.
pub open spec fn with_optional(members: Members, key: Seq<char>, value: Option<Seq<char>>) -> Members {
    match value {
        Some(text) => members.push((key, JsonModel::Text(text))),
        None => members,
    }
}

/// The members of the JSON object for key material.
pub open spec fn material_members(m: MaterialModel) -> Members {
    let header = Members::empty()
        .push(("keyMaterialType"@, JsonModel::Text("PKMT1"@)))
        .push(("internalStorage"@, JsonModel::Flag(m.internal_storage)))
        .push(("isFooterKey"@, JsonModel::Flag(m.is_footer_key)));
    let with_id = with_optional(header, "kmsInstanceID"@, m.kms_instance_id);
    let with_url = with_optional(with_id, "kmsInstanceURL"@, m.kms_instance_url);
    let with_keys = with_url
        .push(("masterKeyID"@, JsonModel::Text(m.master_key_id)))
        .push(("wrappedDEK"@, JsonModel::Text(m.wrapped_dek)))
        .push(("doubleWrapping"@, JsonModel::Flag(m.double_wrapping)));
    let with_kek_id = with_optional(with_keys, "keyEncryptionKeyID"@, m.key_encryption_key_id);
    with_optional(with_kek_id, "wrappedKEK"@, m.wrapped_kek)
}

/// Key material as JSON.
pub open spec fn material_text(m: MaterialModel) -> Seq<char> {
    object_text(material_members(m))
}

/// What is wrong with a member that must be a string.
pub open spec fn text_problem(object: Map<Seq<char>, JsonModel>, key: Seq<char>) -> Option<
    Seq<char>,
> {
    match member(object, key) {
        JsonModel::Text(_) => None,
        JsonModel::Missing => Some("missing field "@ + key),
        _ => Some("expected a string for field "@ + key),
    }
}

/// What is wrong with a member that must be a flag.
pub open spec fn flag_problem(object: Map<Seq<char>, JsonModel>, key: Seq<char>) -> Option<
    Seq<char>,
> {
    match member(object, key) {
        JsonModel::Flag(_) => None,
        JsonModel::Missing => Some("missing field "@ + key),
        _ => Some("expected a boolean for field "@ + key),
    }
}

/// What is wrong with a member that may be missing or null and must otherwise be a string.
pub open spec fn optional_problem(object: Map<Seq<char>, JsonModel>, key: Seq<char>) -> Option<
    Seq<char>,
> {
    match member(object, key) {
        JsonModel::Text(_) => None,
        JsonModel::Missing => None,
        JsonModel::Null => None,
        _ => Some("expected a string for field "@ + key),
    }
}

/// What is wrong with the type of the key material.
pub open spec fn type_problem(object: Map<Seq<char>, JsonModel>) -> Option<Seq<char>> {
    match member(object, "keyMaterialType"@) {
        JsonModel::Text(name) => if name == "PKMT1"@ {
            None
        } else {
            Some("unexpected key material type "@ + name)
        },
        _ => text_problem(object, "keyMaterialType"@),
    }
}

/// The first problem that there is.
pub open spec fn first_of(problems: Seq<Option<Seq<char>>>) -> Option<Seq<char>>
    decreases problems.len(),
{
    if problems.len() == 0 {
        None
    } else {
        match first_of(problems.drop_last()) {
            Some(problem) => Some(problem),
            None => problems.last(),
        }
    }
}

/// What is wrong with each member of a JSON object that should be key material, in the order in
/// which they are checked.
pub open spec fn problems(object: Map<Seq<char>, JsonModel>) -> Seq<Option<Seq<char>>> {
    Seq::empty()
        .push(type_problem(object))
        .push(flag_problem(object, "internalStorage"@))
        .push(flag_problem(object, "isFooterKey"@))
        .push(optional_problem(object, "kmsInstanceID"@))
        .push(optional_problem(object, "kmsInstanceURL"@))
        .push(text_problem(object, "masterKeyID"@))
        .push(text_problem(object, "wrappedDEK"@))
        .push(flag_problem(object, "doubleWrapping"@))
        .push(optional_problem(object, "keyEncryptionKeyID"@))
        .push(optional_problem(object, "wrappedKEK"@))
}

/// The string of a member.
pub open spec fn text_of(object: Map<Seq<char>, JsonModel>, key: Seq<char>) -> Seq<char> {
    member(object, key)->Text_0
}

/// The flag of a member.
pub open spec fn flag_of(object: Map<Seq<char>, JsonModel>, key: Seq<char>) -> bool {
    member(object, key)->Flag_0
}

/// The string of a member that may be missing.
pub open spec fn optional_of(object: Map<Seq<char>, JsonModel>, key: Seq<char>) -> Option<Seq<char>> {
    match member(object, key) {
        JsonModel::Text(text) => Some(text),
        _ => None,
    }
}

/// The error for a text that is not key material.
pub open spec fn material_error(problem: Seq<char>) -> ErrorModel {
    ErrorModel::General(
        "Error deserializing key material: "@ + problem
            + ". Perhaps this file was encrypted without using a KMS"@,
    )
}

/// The key material that a JSON object describes.
pub open spec fn material_from(object: Map<Seq<char>, JsonModel>) -> Result<
    MaterialModel,
    ErrorModel,
> {
    match first_of(problems(object)) {
        Some(problem) => Err(material_error(problem)),
        None => Ok(
            MaterialModel {
                internal_storage: flag_of(object, "internalStorage"@),
                is_footer_key: flag_of(object, "isFooterKey"@),
                kms_instance_id: optional_of(object, "kmsInstanceID"@),
                kms_instance_url: optional_of(object, "kmsInstanceURL"@),
                master_key_id: text_of(object, "masterKeyID"@),
                wrapped_dek: text_of(object, "wrappedDEK"@),
                double_wrapping: flag_of(object, "doubleWrapping"@),
                key_encryption_key_id: optional_of(object, "keyEncryptionKeyID"@),
                wrapped_kek: optional_of(object, "wrappedKEK"@),
            },
        ),
    }
}

/// The key material that a text describes.
pub open spec fn material_read(text: Seq<char>) -> Result<MaterialModel, ErrorModel> {
    match json_parsed(text) {
        Ok(object) => material_from(object),
        Err(e) => Err(material_error(e)),
    }
}

/// Whether `text`, if it is the text of some key material, reads as that key material.
pub open spec fn reads_back(text: Seq<char>) -> bool {
    forall|m: MaterialModel|
        text == #[trigger] material_text(m) ==> material_read(text) == Ok::<
            MaterialModel,
            ErrorModel,
        >(m)
}

proof fn lemma_member_of_push(members: Members, added: (Seq<char>, JsonModel), key: Seq<char>)
    ensures
        member(as_object(members.push(added)), key) == (if added.0 == key {
            added.1
        } else {
            member(as_object(members), key)
        }),
{
    assert(members.push(added).drop_last() =~= members);
}

proof fn lemma_member_of_optional(
    members: Members,
    added: Seq<char>,
    value: Option<Seq<char>>,
    key: Seq<char>,
)
    ensures
        member(as_object(with_optional(members, added, value)), key) == (if added == key
            && value is Some {
            JsonModel::Text(value->0)
        } else {
            member(as_object(members), key)
        }),
{
    if value is Some {
        lemma_member_of_push(members, (added, JsonModel::Text(value->0)), key);
    }
}

proof fn lemma_member_of_material(m: MaterialModel, key: Seq<char>)
    ensures
        member(as_object(material_members(m)), key) == (if key == "wrappedKEK"@ && m.wrapped_kek is Some {
            JsonModel::Text(m.wrapped_kek->0)
        } else if key == "keyEncryptionKeyID"@ && m.key_encryption_key_id is Some {
            JsonModel::Text(m.key_encryption_key_id->0)
        } else if key == "doubleWrapping"@ {
            JsonModel::Flag(m.double_wrapping)
        } else if key == "wrappedDEK"@ {
            JsonModel::Text(m.wrapped_dek)
        } else if key == "masterKeyID"@ {
            JsonModel::Text(m.master_key_id)
        } else if key == "kmsInstanceURL"@ && m.kms_instance_url is Some {
            JsonModel::Text(m.kms_instance_url->0)
        } else if key == "kmsInstanceID"@ && m.kms_instance_id is Some {
            JsonModel::Text(m.kms_instance_id->0)
        } else if key == "isFooterKey"@ {
            JsonModel::Flag(m.is_footer_key)
        } else if key == "internalStorage"@ {
            JsonModel::Flag(m.internal_storage)
        } else if key == "keyMaterialType"@ {
            JsonModel::Text("PKMT1"@)
        } else {
            JsonModel::Missing
        }),
{
    let start = Members::empty();
    let kind = ("keyMaterialType"@, JsonModel::Text("PKMT1"@));
    let storage = ("internalStorage"@, JsonModel::Flag(m.internal_storage));
    let footer = ("isFooterKey"@, JsonModel::Flag(m.is_footer_key));
    let master = ("masterKeyID"@, JsonModel::Text(m.master_key_id));
    let dek = ("wrappedDEK"@, JsonModel::Text(m.wrapped_dek));
    let double = ("doubleWrapping"@, JsonModel::Flag(m.double_wrapping));
    let header = start.push(kind).push(storage).push(footer);
    let with_id = with_optional(header, "kmsInstanceID"@, m.kms_instance_id);
    let with_url = with_optional(with_id, "kmsInstanceURL"@, m.kms_instance_url);
    let with_keys = with_url.push(master).push(dek).push(double);
    let with_kek_id = with_optional(with_keys, "keyEncryptionKeyID"@, m.key_encryption_key_id);
    lemma_member_of_push(start, kind, key);
    lemma_member_of_push(start.push(kind), storage, key);
    lemma_member_of_push(start.push(kind).push(storage), footer, key);
    lemma_member_of_optional(header, "kmsInstanceID"@, m.kms_instance_id, key);
    lemma_member_of_optional(with_id, "kmsInstanceURL"@, m.kms_instance_url, key);
    lemma_member_of_push(with_url, master, key);
    lemma_member_of_push(with_url.push(master), dek, key);
    lemma_member_of_push(with_url.push(master).push(dek), double, key);
    lemma_member_of_optional(with_keys, "keyEncryptionKeyID"@, m.key_encryption_key_id, key);
    lemma_member_of_optional(with_kek_id, "wrappedKEK"@, m.wrapped_kek, key);
}

proof fn lemma_keys_differ()
    ensures
        "wrappedDEK"@ != "wrappedKEK"@,
        "isFooterKey"@ != "masterKeyID"@,
        "doubleWrapping"@ != "kmsInstanceURL"@,
        "internalStorage"@ != "keyMaterialType"@,
        "wrappedDEK"@.len() == 10,
        "wrappedKEK"@.len() == 10,
        "isFooterKey"@.len() == 11,
        "masterKeyID"@.len() == 11,
        "kmsInstanceID"@.len() == 13,
        "doubleWrapping"@.len() == 14,
        "kmsInstanceURL"@.len() == 14,
        "internalStorage"@.len() == 15,
        "keyMaterialType"@.len() == 15,
        "keyEncryptionKeyID"@.len() == 18,
{
    reveal_strlit("wrappedDEK");
    reveal_strlit("wrappedKEK");
    reveal_strlit("isFooterKey");
    reveal_strlit("masterKeyID");
    reveal_strlit("kmsInstanceID");
    reveal_strlit("doubleWrapping");
    reveal_strlit("kmsInstanceURL");
    reveal_strlit("internalStorage");
    reveal_strlit("keyMaterialType");
    reveal_strlit("keyEncryptionKeyID");
    assert("wrappedDEK"@[7] != "wrappedKEK"@[7]);
    assert("isFooterKey"@[0] != "masterKeyID"@[0]);
    assert("doubleWrapping"@[0] != "kmsInstanceURL"@[0]);
    assert("internalStorage"@[0] != "keyMaterialType"@[0]);
}

proof fn lemma_first_of_push(problems: Seq<Option<Seq<char>>>, problem: Option<Seq<char>>)
    ensures
        first_of(problems.push(problem)) == (if first_of(problems) is Some {
            first_of(problems)
        } else {
            problem
        }),
{
    assert(problems.push(problem).drop_last() =~= problems);
}

proof fn lemma_first_problem(object: Map<Seq<char>, JsonModel>)
    ensures
        first_of(problems(object)) == (if type_problem(object) is Some {
            type_problem(object)
        } else if flag_problem(object, "internalStorage"@) is Some {
            flag_problem(object, "internalStorage"@)
        } else if flag_problem(object, "isFooterKey"@) is Some {
            flag_problem(object, "isFooterKey"@)
        } else if optional_problem(object, "kmsInstanceID"@) is Some {
            optional_problem(object, "kmsInstanceID"@)
        } else if optional_problem(object, "kmsInstanceURL"@) is Some {
            optional_problem(object, "kmsInstanceURL"@)
        } else if text_problem(object, "masterKeyID"@) is Some {
            text_problem(object, "masterKeyID"@)
        } else if text_problem(object, "wrappedDEK"@) is Some {
            text_problem(object, "wrappedDEK"@)
        } else if flag_problem(object, "doubleWrapping"@) is Some {
            flag_problem(object, "doubleWrapping"@)
        } else if optional_problem(object, "keyEncryptionKeyID"@) is Some {
            optional_problem(object, "keyEncryptionKeyID"@)
        } else {
            optional_problem(object, "wrappedKEK"@)
        }),
{
    let p0 = Seq::<Option<Seq<char>>>::empty();
    let p1 = p0.push(type_problem(object));
    let p2 = p1.push(flag_problem(object, "internalStorage"@));
    let p3 = p2.push(flag_problem(object, "isFooterKey"@));
    let p4 = p3.push(optional_problem(object, "kmsInstanceID"@));
    let p5 = p4.push(optional_problem(object, "kmsInstanceURL"@));
    let p6 = p5.push(text_problem(object, "masterKeyID"@));
    let p7 = p6.push(text_problem(object, "wrappedDEK"@));
    let p8 = p7.push(flag_problem(object, "doubleWrapping"@));
    let p9 = p8.push(optional_problem(object, "keyEncryptionKeyID"@));
    lemma_first_of_push(p0, type_problem(object));
    lemma_first_of_push(p1, flag_problem(object, "internalStorage"@));
    lemma_first_of_push(p2, flag_problem(object, "isFooterKey"@));
    lemma_first_of_push(p3, optional_problem(object, "kmsInstanceID"@));
    lemma_first_of_push(p4, optional_problem(object, "kmsInstanceURL"@));
    lemma_first_of_push(p5, text_problem(object, "masterKeyID"@));
    lemma_first_of_push(p6, text_problem(object, "wrappedDEK"@));
    lemma_first_of_push(p7, flag_problem(object, "doubleWrapping"@));
    lemma_first_of_push(p8, optional_problem(object, "keyEncryptionKeyID"@));
    lemma_first_of_push(p9, optional_problem(object, "wrappedKEK"@));
}

/// The JSON object written for key material describes that key material.
pub proof fn law_material_from_its_members(m: MaterialModel)
    ensures
        material_from(as_object(material_members(m))) == Ok::<MaterialModel, ErrorModel>(m),
        all_plain(material_members(m)),
{
    lemma_keys_differ();
    lemma_member_of_material(m, "keyMaterialType"@);
    lemma_member_of_material(m, "internalStorage"@);
    lemma_member_of_material(m, "isFooterKey"@);
    lemma_member_of_material(m, "kmsInstanceID"@);
    lemma_member_of_material(m, "kmsInstanceURL"@);
    lemma_member_of_material(m, "masterKeyID"@);
    lemma_member_of_material(m, "wrappedDEK"@);
    lemma_member_of_material(m, "doubleWrapping"@);
    lemma_member_of_material(m, "keyEncryptionKeyID"@);
    lemma_member_of_material(m, "wrappedKEK"@);
    lemma_first_problem(as_object(material_members(m)));
}

/// Makes the error for a text that is not key material.
fn material_problem(problem: &str) -> (r: Error)
    ensures
        r@ == material_error(problem@),
{
    Error::General(
        "Error deserializing key material: ".to_owned().concat(problem).concat(
            ". Perhaps this file was encrypted without using a KMS",
        ),
    )
}

/// Reads a member that must be a string.
fn text_field(object: &JsonMap<String, Value>, key: &str) -> (r: Result<String, Error>)
    ensures
        match r {
            Ok(text) => text_problem(json_members(*object), key@) is None && text@ == text_of(
                json_members(*object),
                key@,
            ),
            Err(e) => text_problem(json_members(*object), key@) matches Some(problem) && e@
                == material_error(problem),
        },
{
    match get_member(object, key) {
        Json::Text(text) => Ok(text),
        Json::Missing => Err(material_problem("missing field ".to_owned().concat(key).as_str())),
        _ => Err(
            material_problem("expected a string for field ".to_owned().concat(key).as_str()),
        ),
    }
}

/// Reads a member that must be a flag.
fn flag_field(object: &JsonMap<String, Value>, key: &str) -> (r: Result<bool, Error>)
    ensures
        match r {
            Ok(flag) => flag_problem(json_members(*object), key@) is None && flag == flag_of(
                json_members(*object),
                key@,
            ),
            Err(e) => flag_problem(json_members(*object), key@) matches Some(problem) && e@
                == material_error(problem),
        },
{
    match get_member(object, key) {
        Json::Flag(flag) => Ok(flag),
        Json::Missing => Err(material_problem("missing field ".to_owned().concat(key).as_str())),
        _ => Err(
            material_problem("expected a boolean for field ".to_owned().concat(key).as_str()),
        ),
    }
}

/// Reads a member that may be missing or null and must otherwise be a string.
fn optional_field(object: &JsonMap<String, Value>, key: &str) -> (r: Result<Option<String>, Error>)
    ensures
        match r {
            Ok(text) => optional_problem(json_members(*object), key@) is None && optional(text)
                == optional_of(json_members(*object), key@),
            Err(e) => optional_problem(json_members(*object), key@) matches Some(problem) && e@
                == material_error(problem),
        },
{
    match get_member(object, key) {
        Json::Text(text) => Ok(Some(text)),
        Json::Missing => Ok(None),
        Json::Null => Ok(None),
        _ => Err(
            material_problem("expected a string for field ".to_owned().concat(key).as_str()),
        ),
    }
}

/// Checks the type of the key material.
fn check_type(object: &JsonMap<String, Value>) -> (r: Result<(), Error>)
    ensures
        match r {
            Ok(_) => type_problem(json_members(*object)) is None,
            Err(e) => type_problem(json_members(*object)) matches Some(problem) && e@
                == material_error(problem),
        },
{
    match text_field(object, "keyMaterialType") {
        Ok(name) => {
            if same_text(name.as_str(), "PKMT1") {
                Ok(())
            } else {
                Err(
                    material_problem(
                        "unexpected key material type ".to_owned().concat(name.as_str()).as_str(),
                    ),
                )
            }
        },
        Err(e) => Err(e),
    }
}

/// Reads the key material that a JSON object describes.
fn read_material(object: &JsonMap<String, Value>) -> (r: Result<KeyMaterial, Error>)
    ensures
        material_outcome(r) == material_from(json_members(*object)),
{
    proof {
        lemma_first_problem(json_members(*object));
    }
    match check_type(object) {
        Ok(_) => {},
        Err(e) => return Err(e),
    }
    let internal_storage = match flag_field(object, "internalStorage") {
        Ok(flag) => flag,
        Err(e) => return Err(e),
    };
    let is_footer_key = match flag_field(object, "isFooterKey") {
        Ok(flag) => flag,
        Err(e) => return Err(e),
    };
    let kms_instance_id = match optional_field(object, "kmsInstanceID") {
        Ok(text) => text,
        Err(e) => return Err(e),
    };
    let kms_instance_url = match optional_field(object, "kmsInstanceURL") {
        Ok(text) => text,
        Err(e) => return Err(e),
    };
    let master_key_id = match text_field(object, "masterKeyID") {
        Ok(text) => text,
        Err(e) => return Err(e),
    };
    let wrapped_dek = match text_field(object, "wrappedDEK") {
        Ok(text) => text,
        Err(e) => return Err(e),
    };
    let double_wrapping = match flag_field(object, "doubleWrapping") {
        Ok(flag) => flag,
        Err(e) => return Err(e),
    };
    let key_encryption_key_id = match optional_field(object, "keyEncryptionKeyID") {
        Ok(text) => text,
        Err(e) => return Err(e),
    };
    let wrapped_kek = match optional_field(object, "wrappedKEK") {
        Ok(text) => text,
        Err(e) => return Err(e),
    };
    Ok(
        KeyMaterial {
            internal_storage,
            is_footer_key,
            kms_instance_id,
            kms_instance_url,
            master_key_id,
            wrapped_dek,
            double_wrapping,
            key_encryption_key_id,
            wrapped_kek,
        },
    )
}

/// Writes one more string, where there is one.
fn optional_member(writer: ObjectWriter, key: &str, value: &Option<String>) -> (r: ObjectWriter)
    ensures
        r@ == with_optional(writer@, key@, optional(*value)),
{
    match value {
        Some(text) => writer.text_member(key, text.as_str()),
        None => writer,
    }
}

impl KeyMaterial {
    /// Writes the key material as JSON.
    pub fn serialize(&self) -> (r: Result<String, Error>)
        ensures
            r matches Ok(text) && text@ == material_text(self@),
    {
        let writer = ObjectWriter::new().text_member("keyMaterialType", "PKMT1").flag_member(
            "internalStorage",
            self.internal_storage,
        ).flag_member("isFooterKey", self.is_footer_key);
        let writer = optional_member(writer, "kmsInstanceID", &self.kms_instance_id);
        let writer = optional_member(writer, "kmsInstanceURL", &self.kms_instance_url);
        let writer = writer.text_member("masterKeyID", self.master_key_id.as_str()).text_member(
            "wrappedDEK",
            self.wrapped_dek.as_str(),
        ).flag_member("doubleWrapping", self.double_wrapping);
        let writer = optional_member(writer, "keyEncryptionKeyID", &self.key_encryption_key_id);
        let writer = optional_member(writer, "wrappedKEK", &self.wrapped_kek);
        Ok(writer.finish())
    }

    /// Reads key material from JSON. What [`KeyMaterial::serialize`] wrote reads as the key
    /// material that was written.
    pub fn deserialize(text: &str) -> (r: Result<KeyMaterial, Error>)
        ensures
            material_outcome(r) == material_read(text@),
            reads_back(text@),
    {
        let parsed = parse_object(text);
        assert forall|m: MaterialModel| text@ == #[trigger] material_text(m) implies material_read(
            text@,
        ) == Ok::<MaterialModel, ErrorModel>(m) by {
            law_material_from_its_members(m);
            assert(text@ == object_text(material_members(m)));
        }
        match parsed {
            Ok(object) => read_material(&object),
            Err(e) => Err(material_problem(e.as_str())),
        }
    }
}

/// A key that was wrapped with a KMS.
enum WrappedKey {
    Single { master_key_id: String, wrapped_dek: String },
    Double {
        master_key_id: String,
        key_encryption_key_id: String,
        wrapped_kek: String,
        wrapped_dek: String,
    },
}

/// What a builder knows of a wrapped key.
pub enum WrappedKeyModel {
    Single { master_key_id: Seq<char>, wrapped_dek: Seq<char> },
    Double {
        master_key_id: Seq<char>,
        key_encryption_key_id: Seq<char>,
        wrapped_kek: Seq<char>,
        wrapped_dek: Seq<char>,
    },
}

impl View for WrappedKey {
    type V = WrappedKeyModel;

    closed spec fn view(&self) -> WrappedKeyModel {
        match self {
            WrappedKey::Single {
                master_key_id,
                wrapped_dek,
            } => WrappedKeyModel::Single {
                master_key_id: master_key_id@,
                wrapped_dek: wrapped_dek@,
            },
            WrappedKey::Double {
                master_key_id,
                key_encryption_key_id,
                wrapped_kek,
                wrapped_dek,
            } => WrappedKeyModel::Double {
                master_key_id: master_key_id@,
                key_encryption_key_id: key_encryption_key_id@,
                wrapped_kek: wrapped_kek@,
                wrapped_dek: wrapped_dek@,
            },
        }
    }
}

/// Key material for a footer key, with the identifier and URL of the KMS instance, or for a column
/// key.
pub open spec fn built_material(
    footer: Option<(Seq<char>, Seq<char>)>,
    key: WrappedKeyModel,
) -> MaterialModel {
    let (id, url) = match footer {
        Some((id, url)) => (Some(id), Some(url)),
        None => (None, None),
    };
    match key {
        WrappedKeyModel::Single { master_key_id, wrapped_dek } => MaterialModel {
            internal_storage: true,
            is_footer_key: footer is Some,
            kms_instance_id: id,
            kms_instance_url: url,
            master_key_id,
            wrapped_dek,
            double_wrapping: false,
            key_encryption_key_id: None,
            wrapped_kek: None,
        },
        WrappedKeyModel::Double {
            master_key_id,
            key_encryption_key_id,
            wrapped_kek,
            wrapped_dek,
        } => MaterialModel {
            internal_storage: true,
            is_footer_key: footer is Some,
            kms_instance_id: id,
            kms_instance_url: url,
            master_key_id,
            wrapped_dek,
            double_wrapping: true,
            key_encryption_key_id: Some(key_encryption_key_id),
            wrapped_kek: Some(wrapped_kek),
        },
    }
}

/// The state of a [`KeyMaterialBuilder`]: the identifier and URL of the KMS instance, for a footer
/// key, and the wrapped key once it was given.
pub struct MaterialBuilderModel {
    pub footer: Option<(Seq<char>, Seq<char>)>,
    pub key: Option<WrappedKeyModel>,
}

/// Builder for [`KeyMaterial`] that is stored inside Parquet files.
pub struct KeyMaterialBuilder {
    footer: Option<(String, String)>,
    key: Option<WrappedKey>,
}

impl View for KeyMaterialBuilder {
    type V = MaterialBuilderModel;

    closed spec fn view(&self) -> MaterialBuilderModel {
        MaterialBuilderModel {
            footer: match self.footer {
                Some((id, url)) => Some((id@, url@)),
                None => None,
            },
            key: match self.key {
                Some(key) => Some(key@),
                None => None,
            },
        }
    }
}

impl KeyMaterialBuilder {
    /// Starts key material for a footer key, which holds the identifier and URL of the KMS
    /// instance.
    pub fn for_footer_key(kms_instance_id: String, kms_instance_url: String) -> (r: Self)
        ensures
            r@ == (MaterialBuilderModel {
                footer: Some((kms_instance_id@, kms_instance_url@)),
                key: None,
            }),
    {
        KeyMaterialBuilder { footer: Some((kms_instance_id, kms_instance_url)), key: None }
    }

    /// Starts key material for a column key.
    pub fn for_column_key() -> (r: Self)
        ensures
            r@ == (MaterialBuilderModel { footer: None, key: None }),
    {
        KeyMaterialBuilder { footer: None, key: None }
    }

    /// Sets a data encryption key that is wrapped with the master key.
    pub fn with_single_wrapped_key(self, master_key_id: String, wrapped_dek: String) -> (r: Self)
        ensures
            r@ == (MaterialBuilderModel {
                key: Some(
                    WrappedKeyModel::Single {
                        master_key_id: master_key_id@,
                        wrapped_dek: wrapped_dek@,
                    },
                ),
                ..self@
            }),
    {
        KeyMaterialBuilder {
            footer: self.footer,
            key: Some(WrappedKey::Single { master_key_id, wrapped_dek }),
        }
    }

    /// Sets a data encryption key that is wrapped with a key encryption key, which is wrapped with
    /// the master key.
    pub fn with_double_wrapped_key(
        self,
        master_key_id: String,
        key_encryption_key_id: String,
        wrapped_kek: String,
        wrapped_dek: String,
    ) -> (r: Self)
        ensures
            r@ == (MaterialBuilderModel {
                key: Some(
                    WrappedKeyModel::Double {
                        master_key_id: master_key_id@,
                        key_encryption_key_id: key_encryption_key_id@,
                        wrapped_kek: wrapped_kek@,
                        wrapped_dek: wrapped_dek@,
                    },
                ),
                ..self@
            }),
    {
        KeyMaterialBuilder {
            footer: self.footer,
            key: Some(
                WrappedKey::Double {
                    master_key_id,
                    key_encryption_key_id,
                    wrapped_kek,
                    wrapped_dek,
                },
            ),
        }
    }

    /// Finishes the key material, for which a wrapped key must have been set.
    pub fn build(self) -> (r: Result<KeyMaterial, Error>)
        ensures
            match self@.key {
                Some(key) => r matches Ok(material) && material@ == built_material(
                    self@.footer,
                    key,
                ),
                None => r matches Err(e) && e@ == ErrorModel::General(
                    "Key material requires a wrapped key"@,
                ),
            },
    {
        let is_footer_key = self.footer.is_some();
        let (kms_instance_id, kms_instance_url) = match self.footer {
            Some((id, url)) => (Some(id), Some(url)),
            None => (None, None),
        };
        match self.key {
            Some(WrappedKey::Single { master_key_id, wrapped_dek }) => Ok(
                KeyMaterial {
                    internal_storage: true,
                    is_footer_key,
                    kms_instance_id,
                    kms_instance_url,
                    master_key_id,
                    wrapped_dek,
                    double_wrapping: false,
                    key_encryption_key_id: None,
                    wrapped_kek: None,
                },
            ),
            Some(
                WrappedKey::Double {
                    master_key_id,
                    key_encryption_key_id,
                    wrapped_kek,
                    wrapped_dek,
                },
            ) => Ok(
                KeyMaterial {
                    internal_storage: true,
                    is_footer_key,
                    kms_instance_id,
                    kms_instance_url,
                    master_key_id,
                    wrapped_dek,
                    double_wrapping: true,
                    key_encryption_key_id: Some(key_encryption_key_id),
                    wrapped_kek: Some(wrapped_kek),
                },
            ),
            None => Err(Error::General("Key material requires a wrapped key".to_owned())),
        }
    }
}

/// The JSON object for key material has each part of it under its name. What the key material does
/// not have is not in the object.
pub proof fn law_members_have_their_names(m: MaterialModel)
    ensures
        member(as_object(material_members(m)), "keyMaterialType"@) == JsonModel::Text("PKMT1"@),
        member(as_object(material_members(m)), "internalStorage"@) == JsonModel::Flag(m.internal_storage),
        member(as_object(material_members(m)), "isFooterKey"@) == JsonModel::Flag(m.is_footer_key),
        member(as_object(material_members(m)), "kmsInstanceID"@) == (match m.kms_instance_id {
            Some(text) => JsonModel::Text(text),
            None => JsonModel::Missing,
        }),
        member(as_object(material_members(m)), "kmsInstanceURL"@) == (match m.kms_instance_url {
            Some(text) => JsonModel::Text(text),
            None => JsonModel::Missing,
        }),
        member(as_object(material_members(m)), "masterKeyID"@) == JsonModel::Text(m.master_key_id),
        member(as_object(material_members(m)), "wrappedDEK"@) == JsonModel::Text(m.wrapped_dek),
        member(as_object(material_members(m)), "doubleWrapping"@) == JsonModel::Flag(m.double_wrapping),
        member(as_object(material_members(m)), "keyEncryptionKeyID"@) == (match m.key_encryption_key_id {
            Some(text) => JsonModel::Text(text),
            None => JsonModel::Missing,
        }),
        member(as_object(material_members(m)), "wrappedKEK"@) == (match m.wrapped_kek {
            Some(text) => JsonModel::Text(text),
            None => JsonModel::Missing,
        }),
{
    lemma_keys_differ();
    lemma_member_of_material(m, "keyMaterialType"@);
    lemma_member_of_material(m, "internalStorage"@);
    lemma_member_of_material(m, "isFooterKey"@);
    lemma_member_of_material(m, "kmsInstanceID"@);
    lemma_member_of_material(m, "kmsInstanceURL"@);
    lemma_member_of_material(m, "masterKeyID"@);
    lemma_member_of_material(m, "wrappedDEK"@);
    lemma_member_of_material(m, "doubleWrapping"@);
    lemma_member_of_material(m, "keyEncryptionKeyID"@);
    lemma_member_of_material(m, "wrappedKEK"@);
}

/// A JSON object that has the parts of key material under their names reads as this key material,
/// whatever else is in it. What is missing or null is not in the key material.
pub proof fn law_members_are_read_by_their_names(
    object: Map<Seq<char>, JsonModel>,
    m: MaterialModel,
)
    requires
        member(object, "keyMaterialType"@) == JsonModel::Text("PKMT1"@),
        member(object, "internalStorage"@) == JsonModel::Flag(m.internal_storage),
        member(object, "isFooterKey"@) == JsonModel::Flag(m.is_footer_key),
        match m.kms_instance_id {
            Some(text) => member(object, "kmsInstanceID"@) == JsonModel::Text(text),
            None => member(object, "kmsInstanceID"@) is Missing || member(object, "kmsInstanceID"@) is Null,
        },
        match m.kms_instance_url {
            Some(text) => member(object, "kmsInstanceURL"@) == JsonModel::Text(text),
            None => member(object, "kmsInstanceURL"@) is Missing || member(object, "kmsInstanceURL"@) is Null,
        },
        member(object, "masterKeyID"@) == JsonModel::Text(m.master_key_id),
        member(object, "wrappedDEK"@) == JsonModel::Text(m.wrapped_dek),
        member(object, "doubleWrapping"@) == JsonModel::Flag(m.double_wrapping),
        match m.key_encryption_key_id {
            Some(text) => member(object, "keyEncryptionKeyID"@) == JsonModel::Text(text),
            None => member(object, "keyEncryptionKeyID"@) is Missing || member(object, "keyEncryptionKeyID"@) is Null,
        },
        match m.wrapped_kek {
            Some(text) => member(object, "wrappedKEK"@) == JsonModel::Text(text),
            None => member(object, "wrappedKEK"@) is Missing || member(object, "wrappedKEK"@) is Null,
        },
    ensures
        material_from(object) == Ok::<MaterialModel, ErrorModel>(m),
{
    lemma_first_problem(object);
}

/// A JSON object is only read as key material if it has the right type, and what it must have is
/// there as a flag or a string.
pub proof fn law_other_objects_are_refused(object: Map<Seq<char>, JsonModel>, m: MaterialModel)
    requires
        material_from(object) == Ok::<MaterialModel, ErrorModel>(m),
    ensures
        member(object, "keyMaterialType"@) == JsonModel::Text("PKMT1"@),
        member(object, "internalStorage"@) is Flag,
        member(object, "isFooterKey"@) is Flag,
        member(object, "kmsInstanceID"@) is Text || member(object, "kmsInstanceID"@) is Missing || member(
            object,
            "kmsInstanceID"@,
        ) is Null,
        member(object, "kmsInstanceURL"@) is Text || member(object, "kmsInstanceURL"@) is Missing || member(
            object,
            "kmsInstanceURL"@,
        ) is Null,
        member(object, "masterKeyID"@) is Text,
        member(object, "wrappedDEK"@) is Text,
        member(object, "doubleWrapping"@) is Flag,
        member(object, "keyEncryptionKeyID"@) is Text || member(object, "keyEncryptionKeyID"@) is Missing || member(
            object,
            "keyEncryptionKeyID"@,
        ) is Null,
        member(object, "wrappedKEK"@) is Text || member(object, "wrappedKEK"@) is Missing || member(
            object,
            "wrappedKEK"@,
        ) is Null,
{
    lemma_first_problem(object);
}

/// Key material that is built is stored inside the file. It has the location of the KMS instance
/// where it is for a footer key, and the wrapped key that was given.
pub proof fn law_built_material_has_its_parts(
    footer: Option<(Seq<char>, Seq<char>)>,
    master_key_id: Seq<char>,
    key_encryption_key_id: Seq<char>,
    wrapped_kek: Seq<char>,
    wrapped_dek: Seq<char>,
)
    ensures
        ({
            let single = built_material(
                footer,
                WrappedKeyModel::Single { master_key_id, wrapped_dek },
            );
            &&& single.internal_storage
            &&& single.is_footer_key == (footer is Some)
            &&& footer is None ==> single.kms_instance_id is None && single.kms_instance_url is None
            &&& footer matches Some((id, url)) ==> single.kms_instance_id == Some(id)
                && single.kms_instance_url == Some(url)
            &&& single.master_key_id == master_key_id
            &&& single.wrapped_dek == wrapped_dek
            &&& !single.double_wrapping
            &&& single.key_encryption_key_id is None
            &&& single.wrapped_kek is None
        }),
        ({
            let double = built_material(
                footer,
                WrappedKeyModel::Double {
                    master_key_id,
                    key_encryption_key_id,
                    wrapped_kek,
                    wrapped_dek,
                },
            );
            &&& double.internal_storage
            &&& double.is_footer_key == (footer is Some)
            &&& footer is None ==> double.kms_instance_id is None && double.kms_instance_url is None
            &&& footer matches Some((id, url)) ==> double.kms_instance_id == Some(id)
                && double.kms_instance_url == Some(url)
            &&& double.master_key_id == master_key_id
            &&& double.wrapped_dek == wrapped_dek
            &&& double.double_wrapping
            &&& double.key_encryption_key_id == Some(key_encryption_key_id)
            &&& double.wrapped_kek == Some(wrapped_kek)
        }),
{
}

/// The error for a JSON object in which nothing but one member is wrong says what is wrong with
/// this member.
pub proof fn law_wrong_member_is_reported(
    object: Map<Seq<char>, JsonModel>,
    key: Seq<char>,
    right: JsonModel,
)
    requires
        material_from(object.insert(key, right)) is Ok,
    ensures
        key == "internalStorage"@ || key == "isFooterKey"@ || key == "doubleWrapping"@ ==> match member(
            object,
            key,
        ) {
            JsonModel::Flag(_) => material_from(object) is Ok,
            JsonModel::Missing => reports_problem(object, "missing field "@ + key),
            _ => reports_problem(object, "expected a boolean for field "@ + key),
        },
        key == "masterKeyID"@ || key == "wrappedDEK"@ ==> match member(object, key) {
            JsonModel::Text(_) => material_from(object) is Ok,
            JsonModel::Missing => reports_problem(object, "missing field "@ + key),
            _ => reports_problem(object, "expected a string for field "@ + key),
        },
        key == "kmsInstanceID"@ || key == "kmsInstanceURL"@ || key == "keyEncryptionKeyID"@ || key
            == "wrappedKEK"@ ==> match member(object, key) {
            JsonModel::Flag(_) => reports_problem(object, "expected a string for field "@ + key),
            JsonModel::Other => reports_problem(object, "expected a string for field "@ + key),
            _ => material_from(object) is Ok,
        },
        key == "keyMaterialType"@ ==> match member(object, key) {
            JsonModel::Text(name) => if name == "PKMT1"@ {
                material_from(object) is Ok
            } else {
                reports_problem(object, "unexpected key material type "@ + name)
            },
            JsonModel::Missing => reports_problem(object, "missing field "@ + key),
            _ => reports_problem(object, "expected a string for field "@ + key),
        },
{
    lemma_keys_differ();
    let mended = object.insert(key, right);
    lemma_first_problem(object);
    lemma_first_problem(mended);
    assert forall|other: Seq<char>| other != key implies #[trigger] member(object, other) == member(
        mended,
        other,
    ) by {}
}

/// Whether an object is refused as key material for a problem.
pub open spec fn reports_problem(
    object: Map<Seq<char>, JsonModel>,
    problem: Seq<char>,
) -> bool {
    material_from(object) == Err::<MaterialModel, ErrorModel>(
        ErrorModel::General(
            "Error deserializing key material: "@ + problem
                + ". Perhaps this file was encrypted without using a KMS"@,
        ),
    )
}

/// A text is read as the JSON object in it. Where there is none, the error says why.
pub proof fn law_text_is_read_as_an_object(
    text: Seq<char>,
    object: Map<Seq<char>, JsonModel>,
    problem: Seq<char>,
)
    ensures
        json_parsed(text) == Ok::<Map<Seq<char>, JsonModel>, Seq<char>>(object) ==> material_read(
            text,
        ) == material_from(object),
        json_parsed(text) == Err::<Map<Seq<char>, JsonModel>, Seq<char>>(problem) ==> material_read(
            text,
        ) == Err::<MaterialModel, ErrorModel>(
            ErrorModel::General(
                "Error deserializing key material: "@ + problem
                    + ". Perhaps this file was encrypted without using a KMS"@,
            ),
        ),
{
}

} // verus!
