//! Typed reading of untrusted host values, and the building of host objects.

use crate::error::{WalletError, WalletResult};
use crate::host::{
    all_bytes_at, all_in_family, all_texts, byte_rows, fields_model, lemma_fields_model,
    lemma_items_model, lemma_position, mismatch, models, outcome, position, put, texts, HostField,
    HostModel, HostValue,
};
use crate::text::has_prefix;
use vstd::prelude::*;
use vstd::string::StringExecFns;

verus! {

/// A host value under inspection.
///
/// Every read either gives a typed value or says what was missing or of the
/// wrong type; none of them panics, whatever the host handed over.
#[derive(Debug, PartialEq, Eq)]
pub struct Reflection(HostValue);

impl View for Reflection {
    type V = HostModel;

    closed spec fn view(&self) -> HostModel {
        self.0@
    }
}

/// The strings of `items`, or the error of the first that is no string.
pub fn read_texts(items: &Vec<HostValue>) -> (read: WalletResult<Vec<String>>)
    ensures
        match all_texts(models(items@), items@.len()) {
            Err(error) => read is Err && read->Err_0@ == error,
            Ok(wanted) => read is Ok && texts(read->Ok_0@) == wanted,
        },
{
    proof {
        lemma_items_model(items@, items@.len());
    }
    let mut read: Vec<String> = Vec::new();
    let mut i: usize = 0;
    assert(texts(read@) =~= Seq::empty());
    while i < items.len()
        invariant
            i <= items.len(),
            models(items@).len() == items@.len(),
            forall|j: int| 0 <= j < items@.len() ==> (#[trigger] models(items@)[j]) == items@[j]@,
            all_texts(models(items@), i as nat) is Ok,
            all_texts(models(items@), i as nat)->Ok_0 == texts(read@),
        decreases items.len() - i,
    {
        assert(models(items@)[i as int] == items@[i as int]@);
        match items[i].as_text() {
            Err(error) => {
                proof {
                    lemma_first_text_error(models(items@), (i + 1) as nat, items@.len());
                }
                return Err(error);
            },
            Ok(text) => {
                let ghost before = texts(read@);
                read.push(text);
                assert(texts(read@) == before.push(text@));
            },
        }
        i += 1;
    }
    Ok(read)
}

/// An error among the first `n` items is the error of any longer prefix.
pub proof fn lemma_first_text_error(items: Seq<HostModel>, n: nat, m: nat)
    requires
        n <= m <= items.len(),
        all_texts(items, n) is Err,
    ensures
        all_texts(items, m) == all_texts(items, n),
    decreases m,
{
    if n < m {
        lemma_first_text_error(items, n, (m - 1) as nat);
    }
}

/// An error among the first `n` items is the error of any longer prefix.
pub proof fn lemma_first_family_error(items: Seq<HostModel>, prefix: Seq<char>, n: nat, m: nat)
    requires
        n <= m <= items.len(),
        all_in_family(items, prefix, n) is Err,
    ensures
        all_in_family(items, prefix, m) == all_in_family(items, prefix, n),
    decreases m,
{
    if n < m {
        lemma_first_family_error(items, prefix, n, (m - 1) as nat);
    }
}

/// An error among the first `n` items is the error of any longer prefix.
pub proof fn lemma_first_bytes_error(items: Seq<HostModel>, key: Seq<char>, n: nat, m: nat)
    requires
        n <= m <= items.len(),
        all_bytes_at(items, key, n) is Err,
    ensures
        all_bytes_at(items, key, m) == all_bytes_at(items, key, n),
    decreases m,
{
    if n < m {
        lemma_first_bytes_error(items, key, n, (m - 1) as nat);
    }
}

/// The strings of `items`, all of which must start with `prefix`; otherwise
/// the error of the first item that is no string or starts otherwise.
pub fn read_family(items: &Vec<HostValue>, prefix: &str) -> (read: WalletResult<Vec<String>>)
    ensures
        match all_in_family(models(items@), prefix@, items@.len()) {
            Err(error) => read is Err && read->Err_0@ == error,
            Ok(wanted) => read is Ok && texts(read->Ok_0@) == wanted,
        },
{
    proof {
        lemma_items_model(items@, items@.len());
    }
    let mut read: Vec<String> = Vec::new();
    let mut i: usize = 0;
    assert(texts(read@) =~= Seq::empty());
    while i < items.len()
        invariant
            i <= items.len(),
            models(items@).len() == items@.len(),
            forall|j: int| 0 <= j < items@.len() ==> (#[trigger] models(items@)[j]) == items@[j]@,
            all_in_family(models(items@), prefix@, i as nat) is Ok,
            all_in_family(models(items@), prefix@, i as nat)->Ok_0 == texts(read@),
        decreases items.len() - i,
    {
        assert(models(items@)[i as int] == items@[i as int]@);
        match items[i].as_text() {
            Err(error) => {
                proof {
                    lemma_first_family_error(models(items@), prefix@, (i + 1) as nat, items@.len());
                }
                return Err(error);
            },
            Ok(text) => {
                if !has_prefix(text.as_str(), prefix) {
                    proof {
                        lemma_first_family_error(
                            models(items@),
                            prefix@,
                            (i + 1) as nat,
                            items@.len(),
                        );
                    }
                    return Err(WalletError::UnsupportedChain(text));
                }
                let ghost before = texts(read@);
                read.push(text);
                assert(texts(read@) == before.push(text@));
            },
        }
        i += 1;
    }
    Ok(read)
}

impl HostValue {
    /// The string under `key`.
    pub fn text_at(&self, key: &str) -> (text: WalletResult<String>)
        ensures
            outcome(text) == self@.text_at(key@),
    {
        match self.find(key) {
            Err(error) => Err(error),
            Ok(None) => Err(WalletError::ValueNotFound),
            Ok(Some(child)) => child.as_text(),
        }
    }

    /// The string under `key`, where there is anything under it.
    pub fn optional_text_at(&self, key: &str) -> (text: WalletResult<Option<String>>)
        ensures
            match self@.optional_text_at(key@) {
                Err(error) => text is Err && text->Err_0@ == error,
                Ok(None) => text is Ok && text->Ok_0 is None,
                Ok(Some(wanted)) => text is Ok && text->Ok_0 is Some && text->Ok_0->Some_0@
                    == wanted,
            },
    {
        match self.find(key) {
            Err(error) => Err(error),
            Ok(None) => Ok(None),
            Ok(Some(child)) => {
                if child.is_absent() {
                    Ok(None)
                } else {
                    match child.as_text() {
                        Err(error) => Err(error),
                        Ok(text) => Ok(Some(text)),
                    }
                }
            },
        }
    }

    /// The bytes under `key`.
    pub fn bytes_at(&self, key: &str) -> (bytes: WalletResult<Vec<u8>>)
        ensures
            outcome(bytes) == self@.bytes_at(key@),
    {
        match self.find(key) {
            Err(error) => Err(error),
            Ok(None) => Err(WalletError::ValueNotFound),
            Ok(Some(child)) => child.as_bytes(),
        }
    }

    /// The 32 bytes under `key`.
    pub fn bytes32_at(&self, key: &str) -> (bytes: WalletResult<[u8; 32]>)
        ensures
            outcome(bytes) == self@.bytes32_at(key@),
    {
        let bytes = self.bytes_at(key)?;
        crate::utils::Utils::to32byte_array(bytes.as_slice())
    }

    /// The items of the array under `key`.
    pub fn array_at(&self, key: &str) -> (items: WalletResult<Vec<HostValue>>)
        ensures
            match self@.array_at(key@) {
                Err(error) => items is Err && items->Err_0@ == error,
                Ok(wanted) => items is Ok && models(items->Ok_0@) == wanted,
            },
    {
        match self.find(key) {
            Err(error) => Err(error),
            Ok(None) => Err(WalletError::ValueNotFound),
            Ok(Some(child)) => child.as_array(),
        }
    }

    /// The strings of the array under `key`.
    pub fn texts_at(&self, key: &str) -> (read: WalletResult<Vec<String>>)
        ensures
            match self@.texts_at(key@) {
                Err(error) => read is Err && read->Err_0@ == error,
                Ok(wanted) => read is Ok && texts(read->Ok_0@) == wanted,
            },
    {
        let items = self.array_at(key)?;
        proof {
            lemma_items_model(items@, items@.len());
        }
        read_texts(&items)
    }

    /// The strings of the array under `key`, all of which must start with
    /// `prefix`.
    pub fn family_at(&self, key: &str, prefix: &str) -> (read: WalletResult<Vec<String>>)
        ensures
            match self@.family_at(key@, prefix@) {
                Err(error) => read is Err && read->Err_0@ == error,
                Ok(wanted) => read is Ok && texts(read->Ok_0@) == wanted,
            },
    {
        let items = self.array_at(key)?;
        proof {
            lemma_items_model(items@, items@.len());
        }
        read_family(&items, prefix)
    }

    /// The keys of the object under `key`, each once.
    pub fn keys_at(&self, key: &str) -> (keys: WalletResult<Vec<String>>)
        ensures
            match self@.keys_at(key@) {
                Err(error) => keys is Err && keys->Err_0@ == error,
                Ok(wanted) => keys is Ok && texts(keys->Ok_0@) == wanted,
            },
    {
        match self.find(key) {
            Err(error) => Err(error),
            Ok(None) => Err(WalletError::ValueNotFound),
            Ok(Some(child)) => child.as_keys(),
        }
    }

    /// The handle of the callable under `key`.
    pub fn function_at(&self, key: &str) -> (handle: WalletResult<u64>)
        ensures
            outcome(handle) == self@.function_at(key@),
    {
        match self.find(key) {
            Err(error) => Err(error),
            Ok(None) => Err(WalletError::ValueNotFound),
            Ok(Some(child)) => child.as_function(),
        }
    }

    /// The handle of the callable `method` of the object under `feature`,
    /// where there is one.
    pub fn handle_at(&self, feature: &str, method: &str) -> (handle: Option<u64>)
        ensures
            handle == self@.handle_at(feature@, method@),
    {
        match self.find(feature) {
            Ok(Some(entry)) => match entry.find(method) {
                Ok(Some(HostValue::Function(handle))) => Some(*handle),
                _ => None,
            },
            _ => None,
        }
    }
}

impl Reflection {
    /// Takes a value under inspection, unless it is `null` or `undefined`.
    pub fn new(value: HostValue) -> (made: WalletResult<Self>)
        ensures
            outcome(made) == value@.present(),
    {
        Reflection::check_is_undefined(&value)?;
        Ok(Self(value))
    }

    /// Takes the property `key` of `value` under inspection.
    pub fn new_from_str(value: &HostValue, key: &str) -> (made: WalletResult<Self>)
        ensures
            outcome(made) == value@.required(key@),
    {
        match value.find(key) {
            Err(error) => Err(error),
            Ok(None) => Err(WalletError::ValueNotFound),
            Ok(Some(child)) => Reflection::new(child.duplicate()),
        }
    }

    /// An empty host object, to be filled.
    pub fn new_object() -> (made: Self)
        ensures
            made@ == HostModel::Object(Seq::empty()),
    {
        let fields: Vec<HostField> = Vec::new();
        Self(HostValue::Object(fields))
    }

    /// Gives the value back.
    pub fn take(self) -> (value: HostValue)
        ensures
            value@ == self@,
    {
        self.0
    }

    /// Sets the property `key` of the object to the string `value`, and
    /// hands the object back for the next call.
    pub fn set_object_str(&mut self, key: &str, value: &str) -> (done: WalletResult<&Self>)
        ensures
            old(self)@ is Object ==> done is Ok && done->Ok_0@ == final(self)@ && final(self)@
                == old(self)@.with_property(key@, HostModel::Text(value@)),
            !(old(self)@ is Object) ==> done is Err && done->Err_0@ == mismatch(
                "object"@,
                old(self)@.kind_name(),
            ) && final(self)@ == old(self)@,
    {
        let key = HostValue::Text(String::from_str(key));
        let value = HostValue::Text(String::from_str(value));
        self.set_object(&key, &value)
    }

    /// Sets the property `key` of the object to the string `value`, where
    /// there is one; leaves the object as it is where there is none. Hands
    /// the object back for the next call.
    pub fn set_object_string_optional(&mut self, key: &str, value: Option<&String>) -> (done:
        WalletResult<&Self>)
        ensures
            value is None ==> done is Ok && done->Ok_0@ == final(self)@ && final(self)@ == old(
                self,
            )@,
            value is Some && old(self)@ is Object ==> done is Ok && done->Ok_0@ == final(self)@
                && final(self)@ == old(self)@.with_property(
                key@,
                HostModel::Text(value->Some_0@),
            ),
            value is Some && !(old(self)@ is Object) ==> done is Err && done->Err_0@ == mismatch(
                "object"@,
                old(self)@.kind_name(),
            ) && final(self)@ == old(self)@,
    {
        match value {
            Some(text) => self.set_object_str(key, text.as_str()),
            None => Ok(self),
        }
    }

    /// Sets the property named by `key` to `value`: in place where the
    /// object has that property already, at the end where it is new, and
    /// hands the object back for the next call. The property is the one that
    /// the host names by `key`: a string names itself, a number names the
    /// property of the text the host writes for it, a boolean, `null` and
    /// `undefined` name the property of their literal. What is under
    /// inspection must be an object, and `key` a value whose name the core
    /// knows; otherwise nothing changes.
    pub fn set_object(&mut self, key: &HostValue, value: &HostValue) -> (done: WalletResult<&Self>)
        ensures
            match (old(self)@, key@.key_form()) {
                (HostModel::Object(_), Some(name)) => done is Ok && done->Ok_0@ == final(self)@
                    && final(self)@ == old(self)@.with_property(name, value@),
                (HostModel::Object(_), None) => done is Err && done->Err_0@ == mismatch(
                    "string"@,
                    key@.kind_name(),
                ) && final(self)@ == old(self)@,
                _ => done is Err && done->Err_0@ == mismatch("object"@, old(self)@.kind_name())
                    && final(self)@ == old(self)@,
            },
    {
        let updated = match &self.0 {
            HostValue::Object(fields) => {
                match key.key_form() {
                    Some(name) => {
                        let ghost model = fields_model(fields@, fields@.len());
                        let ghost at = position(model, name@, 0);
                        proof {
                            lemma_fields_model(fields@, fields@.len());
                            lemma_position(model, name@, 0);
                        }
                        let mut copy: Vec<HostField> = Vec::new();
                        let mut replaced: bool = false;
                        let mut i: usize = 0;
                        while i < fields.len()
                            invariant
                                i <= fields.len(),
                                copy@.len() == i,
                                model.len() == fields@.len(),
                                forall|j: int|
                                    0 <= j < fields@.len() ==> (#[trigger] model[j]) == fields@[j]@,
                                0 <= at <= model.len(),
                                at < model.len() ==> model[at].0 == name@,
                                forall|j: int| 0 <= j < at ==> (#[trigger] model[j]).0 != name@,
                                replaced == (at < i),
                                forall|j: int|
                                    0 <= j < i ==> (#[trigger] copy@[j])@ == (if j == at {
                                        (name@, value@, true)
                                    } else {
                                        model[j]
                                    }),
                            decreases fields.len() - i,
                        {
                            assert(model[i as int] == fields@[i as int]@);
                            if !replaced && crate::text::same_text(
                                fields[i].key.as_str(),
                                name.as_str(),
                            ) {
                                copy.push(
                                    HostField {
                                        key: name.clone(),
                                        value: value.duplicate(),
                                        listed: true,
                                    },
                                );
                                replaced = true;
                            } else {
                                copy.push(
                                    HostField {
                                        key: fields[i].key.clone(),
                                        value: fields[i].value.duplicate(),
                                        listed: fields[i].listed,
                                    },
                                );
                            }
                            i += 1;
                        }
                        if !replaced {
                            copy.push(
                                HostField {
                                    key: name.clone(),
                                    value: value.duplicate(),
                                    listed: true,
                                },
                            );
                        }
                        proof {
                            lemma_fields_model(copy@, copy@.len());
                            assert(fields_model(copy@, copy@.len()) =~= put(model, name@, value@));
                        }
                        Ok(HostValue::Object(copy))
                    },
                    None => Err(Self::concat_error("string", key.kind_name().as_str())),
                }
            },
            _ => Err(Self::concat_error("object", self.0.kind_name().as_str())),
        };
        match updated {
            Ok(object) => {
                self.0 = object;
                Ok(self)
            },
            Err(error) => Err(error),
        }
    }

    /// The property `key`, which must be there.
    pub fn reflect_inner(&self, key: &str) -> (inner: WalletResult<HostValue>)
        ensures
            outcome(inner) == self@.required(key@),
    {
        match self.0.find(key) {
            Err(error) => Err(error),
            Ok(None) => Err(WalletError::ValueNotFound),
            Ok(Some(child)) => {
                if child.is_absent() {
                    Err(WalletError::ValueNotFound)
                } else {
                    Ok(child.duplicate())
                }
            },
        }
    }

    /// The string under `key`.
    pub fn string(&self, key: &str) -> (text: WalletResult<String>)
        ensures
            outcome(text) == self@.text_at(key@),
    {
        self.0.text_at(key)
    }

    /// Where what is under inspection is an array: the bytes under `key` in
    /// each of its items.
    pub fn get_bytes_from_vec(&self, key: &str) -> (rows: WalletResult<Vec<Vec<u8>>>)
        ensures
            match self@.as_array() {
                Err(error) => rows is Err && rows->Err_0@ == error,
                Ok(items) => match all_bytes_at(items, key@, items.len()) {
                    Err(error) => rows is Err && rows->Err_0@ == error,
                    Ok(wanted) => rows is Ok && byte_rows(rows->Ok_0@) == wanted,
                },
            },
    {
        let items = self.get_array()?;
        proof {
            lemma_items_model(items@, items@.len());
        }
        let mut rows: Vec<Vec<u8>> = Vec::new();
        let mut i: usize = 0;
        assert(byte_rows(rows@) =~= Seq::empty());
        while i < items.len()
            invariant
                i <= items.len(),
                models(items@).len() == items@.len(),
                forall|j: int|
                    0 <= j < items@.len() ==> (#[trigger] models(items@)[j]) == items@[j]@,
                self@.as_array() is Ok,
                self@.as_array()->Ok_0 == models(items@),
                all_bytes_at(models(items@), key@, i as nat) is Ok,
                all_bytes_at(models(items@), key@, i as nat)->Ok_0 == byte_rows(rows@),
            decreases items.len() - i,
        {
            assert(models(items@)[i as int] == items@[i as int]@);
            if items[i].is_absent() {
                proof {
                    assert(all_bytes_at(models(items@), key@, (i + 1) as nat) is Err);
                    lemma_first_bytes_error(models(items@), key@, (i + 1) as nat, items@.len());
                }
                return Err(WalletError::ValueNotFound);
            }
            let bytes = match items[i].find(key) {
                Err(error) => Err(error),
                Ok(None) => Err(WalletError::ValueNotFound),
                Ok(Some(child)) => child.as_bytes(),
            };
            match bytes {
                Err(error) => {
                    proof {
                        assert(all_bytes_at(models(items@), key@, (i + 1) as nat) is Err);
                        lemma_first_bytes_error(models(items@), key@, (i + 1) as nat, items@.len());
                    }
                    return Err(error);
                },
                Ok(row) => {
                    let ghost before = byte_rows(rows@);
                    rows.push(row);
                    assert(byte_rows(rows@) == before.push(row@));
                },
            }
            i += 1;
        }
        Ok(rows)
    }

    /// The bytes that the value views.
    pub fn into_bytes(self) -> (bytes: WalletResult<Vec<u8>>)
        ensures
            outcome(bytes) == self@.as_bytes(),
    {
        self.0.as_bytes()
    }

    /// The bytes under `key`.
    pub fn reflect_bytes(&self, key: &str) -> (bytes: WalletResult<Vec<u8>>)
        ensures
            outcome(bytes) == self@.bytes_at(key@),
    {
        self.0.bytes_at(key)
    }

    /// The 32 bytes under `key`: a byte view of any other width is refused,
    /// not cut or filled.
    pub fn byte32array(&self, key: &str) -> (bytes: WalletResult<[u8; 32]>)
        ensures
            outcome(bytes) == self@.bytes32_at(key@),
    {
        self.0.bytes32_at(key)
    }

    /// The items of the array under inspection.
    pub fn get_array(&self) -> (items: WalletResult<Vec<HostValue>>)
        ensures
            match self@.as_array() {
                Err(error) => items is Err && items->Err_0@ == error,
                Ok(wanted) => items is Ok && models(items->Ok_0@) == wanted,
            },
    {
        self.0.as_array()
    }

    /// The string that `value` holds.
    pub fn get_string(value: &HostValue) -> (text: WalletResult<String>)
        ensures
            outcome(text) == value@.as_text(),
    {
        value.as_text()
    }

    /// The strings of the array under `key`.
    pub fn vec_string(&self, key: &str) -> (read: WalletResult<Vec<String>>)
        ensures
            match self@.texts_at(key@) {
                Err(error) => read is Err && read->Err_0@ == error,
                Ok(wanted) => read is Ok && texts(read->Ok_0@) == wanted,
            },
    {
        self.0.texts_at(key)
    }

    /// The items of the array under `key`.
    pub fn reflect_js_array(&self, key: &str) -> (items: WalletResult<Vec<HostValue>>)
        ensures
            match self@.array_at(key@) {
                Err(error) => items is Err && items->Err_0@ == error,
                Ok(wanted) => items is Ok && models(items->Ok_0@) == wanted,
            },
    {
        self.0.array_at(key)
    }

    /// The strings of the array under `key`, all or nothing: one that does
    /// not start with `filter` fails the whole read and is named in the
    /// error.
    pub fn vec_string_and_filter(&self, key: &str, filter: &str) -> (read: WalletResult<
        Vec<String>,
    >)
        ensures
            match self@.family_at(key@, filter@) {
                Err(error) => read is Err && read->Err_0@ == error,
                Ok(wanted) => read is Ok && texts(read->Ok_0@) == wanted,
            },
    {
        self.0.family_at(key, filter)
    }

    /// The keys of the object under `key`, each once.
    pub fn object_to_vec_string(&self, key: &str) -> (keys: WalletResult<Vec<String>>)
        ensures
            match self@.keys_at(key@) {
                Err(error) => keys is Err && keys->Err_0@ == error,
                Ok(wanted) => keys is Ok && texts(keys->Ok_0@) == wanted,
            },
    {
        self.0.keys_at(key)
    }

    /// Fails where `value` is `null` or `undefined`, which are not told
    /// apart.
    pub fn check_is_undefined(value: &HostValue) -> (checked: WalletResult<()>)
        ensures
            checked is Ok <==> !value@.is_absent(),
            checked is Err ==> checked->Err_0@ is ValueNotFound,
    {
        if value.is_absent() {
            Err(WalletError::ValueNotFound)
        } else {
            Ok(())
        }
    }

    /// The handle of the callable under `key`.
    pub fn get_function(&self, key: &str) -> (handle: WalletResult<u64>)
        ensures
            outcome(handle) == self@.function_at(key@),
    {
        self.0.function_at(key)
    }

    /// The value under inspection.
    pub fn get_inner(&self) -> (inner: &HostValue)
        ensures
            inner@ == self@,
    {
        &self.0
    }

    /// The name the host's `typeof` gives `value`.
    pub fn js_typeof(value: &HostValue) -> (name: String)
        ensures
            name@ == value@.kind_name(),
    {
        value.kind_name()
    }

    /// The error for a value of type `encountered` found where a value of
    /// type `expected` was asked for.
    pub fn concat_error(expected: &str, encountered: &str) -> (error: WalletError)
        ensures
            error@ == mismatch(expected@, encountered@),
    {
        WalletError::TypeMismatch(String::from_str(expected), String::from_str(encountered))
    }

    /// The handle of the callable under inspection.
    pub fn into_function(self) -> (handle: WalletResult<u64>)
        ensures
            outcome(handle) == self@.as_function(),
    {
        self.0.as_function()
    }

    /// The items of the array under inspection.
    pub fn into_array(self) -> (items: WalletResult<Vec<HostValue>>)
        ensures
            match self@.as_array() {
                Err(error) => items is Err && items->Err_0@ == error,
                Ok(wanted) => items is Ok && models(items->Ok_0@) == wanted,
            },
    {
        self.0.as_array()
    }
}

impl Default for Reflection {
    fn default() -> (made: Self)
        ensures
            made@ is Undefined,
    {
        Reflection(HostValue::Undefined)
    }
}

impl Clone for Reflection {
    fn clone(&self) -> (copy: Self)
        ensures
            copy@ == self@,
    {
        Reflection(self.0.duplicate())
    }
}

} // verus!
