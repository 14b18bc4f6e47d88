//! A plain-data picture of the dynamically typed values a host hands over.
//!
//! The core never touches a live host value. Whoever embeds it copies what
//! the host reports into a [`HostValue`], and turns a [`HostValue`] back
//! into a host value where the core produces one.

use crate::error::{WalletError, WalletErrorView, WalletResult};
use crate::text::same_text;
use vstd::prelude::*;
use vstd::string::StringExecFns;

verus! {

/// One named property of a host object.
#[derive(Debug, PartialEq, Eq)]
pub struct HostField {
    /// The property's key.
    pub key: String,
    /// The property's value.
    pub value: HostValue,
    /// Whether the host lists the property among the object's keys:
    /// whether it is the object's own and enumerable. A property that is
    /// not, an inherited one or one that is hidden, is read like any other.
    pub listed: bool,
}

/// A value as the host reports it.
#[derive(Debug, PartialEq, Eq)]
pub enum HostValue {
    /// The host's `undefined`.
    Undefined,
    /// The host's `null`.
    Null,
    /// A boolean.
    Boolean(bool),
    /// A string.
    Text(String),
    /// A number, by the text that the host writes for it.
    Number(String),
    /// A view over bytes.
    Bytes(Vec<u8>),
    /// An array, in index order.
    Array(Vec<HostValue>),
    /// An object: its properties, in the host's order, its own before
    /// those it inherits. Where a key occurs twice the first occurrence
    /// counts.
    Object(Vec<HostField>),
    /// A callable, known to the core only by the handle under which the
    /// embedder keeps it.
    Function(u64),
    /// Any other value (a symbol, a big integer, ...), with the type name
    /// the host reports for it.
    Other(String),
}

/// Mathematical model of a [`HostValue`].
pub enum HostModel {
    Undefined,
    Null,
    Boolean(bool),
    Text(Seq<char>),
    Number(Seq<char>),
    Bytes(Seq<u8>),
    Array(Seq<HostModel>),
    Object(Seq<(Seq<char>, HostModel, bool)>),
    Function(u64),
    Other(Seq<char>),
}

impl View for HostField {
    type V = (Seq<char>, HostModel, bool);

    open spec fn view(&self) -> (Seq<char>, HostModel, bool) {
        (self.key@, self.value@, self.listed)
    }
}

impl View for HostValue {
    type V = HostModel;

    open spec fn view(&self) -> HostModel
        decreases self, 0nat,
    {
        match self {
            HostValue::Undefined => HostModel::Undefined,
            HostValue::Null => HostModel::Null,
            HostValue::Boolean(flag) => HostModel::Boolean(*flag),
            HostValue::Text(text) => HostModel::Text(text@),
            HostValue::Number(written) => HostModel::Number(written@),
            HostValue::Bytes(bytes) => HostModel::Bytes(bytes@),
            HostValue::Array(items) => HostModel::Array(items_model(items@, items@.len())),
            HostValue::Object(fields) => HostModel::Object(fields_model(fields@, fields@.len())),
            HostValue::Function(handle) => HostModel::Function(*handle),
            HostValue::Other(kind) => HostModel::Other(kind@),
        }
    }
}

/// The models of the first `n` of `items`.
pub open spec fn items_model(items: Seq<HostValue>, n: nat) -> Seq<HostModel>
    decreases items, n,
{
    if n == 0 || n > items.len() {
        Seq::empty()
    } else {
        items_model(items, (n - 1) as nat).push(items[n - 1].view())
    }
}

/// The models of the first `n` of `fields`.
pub open spec fn fields_model(fields: Seq<HostField>, n: nat) -> Seq<(Seq<char>, HostModel, bool)>
    decreases fields, n,
{
    if n == 0 || n > fields.len() {
        Seq::empty()
    } else {
        fields_model(fields, (n - 1) as nat).push(
            (fields[n - 1].key@, fields[n - 1].value.view(), fields[n - 1].listed),
        )
    }
}

/// `items_model` goes item by item.
pub proof fn lemma_items_model(items: Seq<HostValue>, n: nat)
    requires
        n <= items.len(),
    ensures
        items_model(items, n).len() == n,
        forall|j: int| 0 <= j < n ==> (#[trigger] items_model(items, n)[j]) == items[j]@,
    decreases n,
{
    if n > 0 {
        lemma_items_model(items, (n - 1) as nat);
        assert(items_model(items, n) == items_model(items, (n - 1) as nat).push(items[n - 1]@));
    }
}

/// `fields_model` goes field by field.
pub proof fn lemma_fields_model(fields: Seq<HostField>, n: nat)
    requires
        n <= fields.len(),
    ensures
        fields_model(fields, n).len() == n,
        forall|j: int| 0 <= j < n ==> (#[trigger] fields_model(fields, n)[j]) == fields[j]@,
    decreases n,
{
    if n > 0 {
        lemma_fields_model(fields, (n - 1) as nat);
        assert(fields_model(fields, n) == fields_model(fields, (n - 1) as nat).push(fields[n - 1]@));
    }
}

/// The models of `items`, one by one.
pub open spec fn models(items: Seq<HostValue>) -> Seq<HostModel> {
    items_model(items, items.len())
}

/// The contents of `items`, one by one.
pub open spec fn texts(items: Seq<String>) -> Seq<Seq<char>> {
    Seq::new(items.len(), |i: int| items[i]@)
}

/// The contents of `rows`, one by one.
pub open spec fn byte_rows(rows: Seq<Vec<u8>>) -> Seq<Seq<u8>> {
    Seq::new(rows.len(), |i: int| rows[i]@)
}

/// What an operation yields, seen through the views of its value and of
/// its error.
pub open spec fn outcome<T: View>(result: WalletResult<T>) -> Result<T::V, WalletErrorView> {
    match result {
        Ok(value) => Ok(value@),
        Err(error) => Err(error@),
    }
}

/// The error for a value of type `got` found where `expected` was asked for.
pub open spec fn mismatch(expected: Seq<char>, got: Seq<char>) -> WalletErrorView {
    WalletErrorView::TypeMismatch(expected, got)
}

/// The value of the first of `fields`, from index `from` on, whose key is
/// `key`; `undefined` where there is none.
pub open spec fn property_from(
    fields: Seq<(Seq<char>, HostModel, bool)>,
    key: Seq<char>,
    from: int,
) -> HostModel
    decreases fields.len() - from,
{
    if from < 0 || from >= fields.len() {
        HostModel::Undefined
    } else if fields[from].0 == key {
        fields[from].1
    } else {
        property_from(fields, key, from + 1)
    }
}

/// The keys of those of the first `n` of `fields` that the host lists,
/// each once, in the order of their first occurrence.
pub open spec fn distinct_keys(fields: Seq<(Seq<char>, HostModel, bool)>, n: nat) -> Seq<Seq<char>>
    decreases n,
{
    if n == 0 || n > fields.len() {
        Seq::empty()
    } else {
        let earlier = distinct_keys(fields, (n - 1) as nat);
        if !fields[n - 1].2 || earlier.contains(fields[n - 1].0) {
            earlier
        } else {
            earlier.push(fields[n - 1].0)
        }
    }
}

/// The strings that the first `n` of `items` hold, or the error of the first
/// of them that is no string.
pub open spec fn all_texts(items: Seq<HostModel>, n: nat) -> Result<
    Seq<Seq<char>>,
    WalletErrorView,
>
    decreases n,
{
    if n == 0 || n > items.len() {
        Ok(Seq::empty())
    } else {
        match all_texts(items, (n - 1) as nat) {
            Err(error) => Err(error),
            Ok(earlier) => match items[n - 1].as_text() {
                Err(error) => Err(error),
                Ok(text) => Ok(earlier.push(text)),
            },
        }
    }
}

/// The string that `item` holds where it starts with `prefix`; the error
/// that names it where it does not.
pub open spec fn text_in_family(item: HostModel, prefix: Seq<char>) -> Result<
    Seq<char>,
    WalletErrorView,
> {
    match item.as_text() {
        Err(error) => Err(error),
        Ok(text) => if prefix.is_prefix_of(text) {
            Ok(text)
        } else {
            Err(WalletErrorView::UnsupportedChain(text))
        },
    }
}

/// The strings that the first `n` of `items` hold where each starts with
/// `prefix`; otherwise the error of the first item that is no string or
/// starts otherwise.
pub open spec fn all_in_family(items: Seq<HostModel>, prefix: Seq<char>, n: nat) -> Result<
    Seq<Seq<char>>,
    WalletErrorView,
>
    decreases n,
{
    if n == 0 || n > items.len() {
        Ok(Seq::empty())
    } else {
        match all_in_family(items, prefix, (n - 1) as nat) {
            Err(error) => Err(error),
            Ok(earlier) => match text_in_family(items[n - 1], prefix) {
                Err(error) => Err(error),
                Ok(text) => Ok(earlier.push(text)),
            },
        }
    }
}

/// The bytes under `key` in each of the first `n` of `items`, or the error
/// of the first item that is absent or holds no bytes there.
pub open spec fn all_bytes_at(items: Seq<HostModel>, key: Seq<char>, n: nat) -> Result<
    Seq<Seq<u8>>,
    WalletErrorView,
>
    decreases n,
{
    if n == 0 || n > items.len() {
        Ok(Seq::empty())
    } else {
        match all_bytes_at(items, key, (n - 1) as nat) {
            Err(error) => Err(error),
            Ok(earlier) => match items[n - 1].present() {
                Err(error) => Err(error),
                Ok(item) => match item.bytes_at(key) {
                    Err(error) => Err(error),
                    Ok(bytes) => Ok(earlier.push(bytes)),
                },
            },
        }
    }
}

impl HostModel {
    /// Whether the value is `null` or `undefined`.
    pub open spec fn is_absent(self) -> bool {
        self is Undefined || self is Null
    }

    /// The name the host's `typeof` gives the value.
    pub open spec fn kind_name(self) -> Seq<char> {
        match self {
            HostModel::Undefined => "undefined"@,
            HostModel::Null => "object"@,
            HostModel::Boolean(_) => "boolean"@,
            HostModel::Text(_) => "string"@,
            HostModel::Number(_) => "number"@,
            HostModel::Bytes(_) => "object"@,
            HostModel::Array(_) => "object"@,
            HostModel::Object(_) => "object"@,
            HostModel::Function(_) => "function"@,
            HostModel::Other(kind) => kind,
        }
    }

    /// The name of the property that the host means by the value when it
    /// is used as a key, where the core knows it: a string names itself, a
    /// number names the property of the text the host writes for it, a
    /// boolean, `null` and `undefined` name the property of their literal.
    /// How the host writes any other value as a key is not in this picture.
    pub open spec fn key_form(self) -> Option<Seq<char>> {
        match self {
            HostModel::Text(text) => Some(text),
            HostModel::Number(written) => Some(written),
            HostModel::Boolean(flag) => Some(
                if flag {
                    "true"@
                } else {
                    "false"@
                },
            ),
            HostModel::Undefined => Some("undefined"@),
            HostModel::Null => Some("null"@),
            _ => None,
        }
    }

    /// The value itself, unless it is absent.
    pub open spec fn present(self) -> Result<HostModel, WalletErrorView> {
        if self.is_absent() {
            Err(WalletErrorView::ValueNotFound)
        } else {
            Ok(self)
        }
    }

    /// What reading the property `key` gives: the property of an object,
    /// `undefined` for any other value that can have properties, and an error
    /// for a value that cannot.
    pub open spec fn property(self, key: Seq<char>) -> Result<HostModel, WalletErrorView> {
        match self {
            HostModel::Object(fields) => Ok(property_from(fields, key, 0)),
            HostModel::Bytes(_) => Ok(HostModel::Undefined),
            HostModel::Array(_) => Ok(HostModel::Undefined),
            HostModel::Function(_) => Ok(HostModel::Undefined),
            HostModel::Undefined => Err(WalletErrorView::ValueNotFound),
            HostModel::Null => Err(WalletErrorView::ValueNotFound),
            _ => Err(mismatch("object"@, self.kind_name())),
        }
    }

    /// The property `key`, which must be there.
    pub open spec fn required(self, key: Seq<char>) -> Result<HostModel, WalletErrorView> {
        match self.property(key) {
            Err(error) => Err(error),
            Ok(value) => value.present(),
        }
    }

    /// The string the value holds.
    pub open spec fn as_text(self) -> Result<Seq<char>, WalletErrorView> {
        match self {
            HostModel::Text(text) => Ok(text),
            HostModel::Undefined => Err(WalletErrorView::ValueNotFound),
            HostModel::Null => Err(WalletErrorView::ValueNotFound),
            _ => Err(mismatch("string"@, self.kind_name())),
        }
    }

    /// The bytes the value views.
    pub open spec fn as_bytes(self) -> Result<Seq<u8>, WalletErrorView> {
        match self {
            HostModel::Bytes(bytes) => Ok(bytes),
            HostModel::Undefined => Err(WalletErrorView::ValueNotFound),
            HostModel::Null => Err(WalletErrorView::ValueNotFound),
            _ => Err(mismatch("Uint8Array"@, self.kind_name())),
        }
    }

    /// The items of the array the value is.
    pub open spec fn as_array(self) -> Result<Seq<HostModel>, WalletErrorView> {
        match self {
            HostModel::Array(items) => Ok(items),
            HostModel::Undefined => Err(WalletErrorView::ValueNotFound),
            HostModel::Null => Err(WalletErrorView::ValueNotFound),
            _ => Err(mismatch("Array"@, self.kind_name())),
        }
    }

    /// The handle of the callable the value is.
    pub open spec fn as_function(self) -> Result<u64, WalletErrorView> {
        match self {
            HostModel::Function(handle) => Ok(handle),
            HostModel::Undefined => Err(WalletErrorView::ValueNotFound),
            HostModel::Null => Err(WalletErrorView::ValueNotFound),
            _ => Err(mismatch("function"@, self.kind_name())),
        }
    }

    /// The keys that the host lists for the object the value is, each
    /// once.
    pub open spec fn as_keys(self) -> Result<Seq<Seq<char>>, WalletErrorView> {
        match self {
            HostModel::Object(fields) => Ok(distinct_keys(fields, fields.len())),
            HostModel::Undefined => Err(WalletErrorView::ValueNotFound),
            HostModel::Null => Err(WalletErrorView::ValueNotFound),
            _ => Err(mismatch("Object"@, self.kind_name())),
        }
    }

    /// The string under `key`.
    pub open spec fn text_at(self, key: Seq<char>) -> Result<Seq<char>, WalletErrorView> {
        match self.property(key) {
            Err(error) => Err(error),
            Ok(value) => value.as_text(),
        }
    }

    /// The bytes under `key`.
    pub open spec fn bytes_at(self, key: Seq<char>) -> Result<Seq<u8>, WalletErrorView> {
        match self.property(key) {
            Err(error) => Err(error),
            Ok(value) => value.as_bytes(),
        }
    }

    /// The items of the array under `key`.
    pub open spec fn array_at(self, key: Seq<char>) -> Result<Seq<HostModel>, WalletErrorView> {
        match self.property(key) {
            Err(error) => Err(error),
            Ok(value) => value.as_array(),
        }
    }

    /// The handle of the callable under `key`.
    pub open spec fn function_at(self, key: Seq<char>) -> Result<u64, WalletErrorView> {
        match self.property(key) {
            Err(error) => Err(error),
            Ok(value) => value.as_function(),
        }
    }

    /// The keys of the object under `key`.
    pub open spec fn keys_at(self, key: Seq<char>) -> Result<Seq<Seq<char>>, WalletErrorView> {
        match self.property(key) {
            Err(error) => Err(error),
            Ok(value) => value.as_keys(),
        }
    }

    /// The strings of the array under `key`.
    pub open spec fn texts_at(self, key: Seq<char>) -> Result<Seq<Seq<char>>, WalletErrorView> {
        match self.array_at(key) {
            Err(error) => Err(error),
            Ok(items) => all_texts(items, items.len()),
        }
    }

    /// The strings of the array under `key`, all of which must start with
    /// `prefix`.
    pub open spec fn family_at(self, key: Seq<char>, prefix: Seq<char>) -> Result<
        Seq<Seq<char>>,
        WalletErrorView,
    > {
        match self.array_at(key) {
            Err(error) => Err(error),
            Ok(items) => all_in_family(items, prefix, items.len()),
        }
    }

    /// The 32 bytes under `key`.
    pub open spec fn bytes32_at(self, key: Seq<char>) -> Result<Seq<u8>, WalletErrorView> {
        match self.bytes_at(key) {
            Err(error) => Err(error),
            Ok(bytes) => if bytes.len() == 32 {
                Ok(bytes)
            } else {
                Err(WalletErrorView::Expected32ByteLength)
            },
        }
    }

    /// The string under `key`, where there is anything under it.
    pub open spec fn optional_text_at(self, key: Seq<char>) -> Result<
        Option<Seq<char>>,
        WalletErrorView,
    > {
        match self.property(key) {
            Err(error) => Err(error),
            Ok(value) => if value.is_absent() {
                Ok(None)
            } else {
                match value.as_text() {
                    Err(error) => Err(error),
                    Ok(text) => Ok(Some(text)),
                }
            },
        }
    }

    /// The handle of the callable `method` of the object under `feature`,
    /// where there is one.
    pub open spec fn handle_at(self, feature: Seq<char>, method: Seq<char>) -> Option<u64> {
        match self.property(feature) {
            Ok(entry) => match entry.property(method) {
                Ok(HostModel::Function(handle)) => Some(handle),
                _ => None,
            },
            _ => None,
        }
    }

    /// The object with `key` set to `value`: in place where the key is there
    /// already, at the end where it is new.
    pub open spec fn with_property(self, key: Seq<char>, value: HostModel) -> HostModel {
        match self {
            HostModel::Object(fields) => HostModel::Object(put(fields, key, value)),
            _ => self,
        }
    }
}

/// The index of the first of `fields` whose key is `key`, or their number
/// where there is none.
pub open spec fn position(fields: Seq<(Seq<char>, HostModel, bool)>, key: Seq<char>, from: int) -> int
    decreases fields.len() - from,
{
    if from < 0 || from >= fields.len() {
        fields.len() as int
    } else if fields[from].0 == key {
        from
    } else {
        position(fields, key, from + 1)
    }
}

/// `fields` with `key` set to `value`, as a property that the host lists.
pub open spec fn put(fields: Seq<(Seq<char>, HostModel, bool)>, key: Seq<char>, value: HostModel) -> Seq<
    (Seq<char>, HostModel, bool),
> {
    let at = position(fields, key, 0);
    if at < fields.len() {
        fields.update(at, (key, value, true))
    } else {
        fields.push((key, value, true))
    }
}

/// Where `position` points: at the first field from `from` on with the key,
/// or behind the last.
pub proof fn lemma_position(fields: Seq<(Seq<char>, HostModel, bool)>, key: Seq<char>, from: int)
    requires
        0 <= from <= fields.len(),
    ensures
        from <= position(fields, key, from) <= fields.len(),
        position(fields, key, from) < fields.len() ==> fields[position(fields, key, from)].0 == key,
        forall|j: int| from <= j < position(fields, key, from) ==> (#[trigger] fields[j]).0 != key,
    decreases fields.len() - from,
{
    if from < fields.len() && fields[from].0 != key {
        lemma_position(fields, key, from + 1);
    }
}

/// A copy of `bytes`.
pub fn copy_bytes(bytes: &Vec<u8>) -> (copy: Vec<u8>)
    ensures
        copy@ == bytes@,
{
    let mut copy: Vec<u8> = Vec::new();
    let mut i: usize = 0;
    while i < bytes.len()
        invariant
            i <= bytes.len(),
            copy@ == bytes@.subrange(0, i as int),
        decreases bytes.len() - i,
    {
        copy.push(bytes[i]);
        i += 1;
    }
    assert(copy@ == bytes@);
    copy
}

impl HostValue {
    /// A deep copy of the value.
    pub fn duplicate(&self) -> (copy: HostValue)
        ensures
            copy@ == self@,
        decreases self,
    {
        match self {
            HostValue::Undefined => HostValue::Undefined,
            HostValue::Null => HostValue::Null,
            HostValue::Boolean(flag) => HostValue::Boolean(*flag),
            HostValue::Text(text) => HostValue::Text(text.clone()),
            HostValue::Number(written) => HostValue::Number(written.clone()),
            HostValue::Bytes(bytes) => HostValue::Bytes(copy_bytes(bytes)),
            HostValue::Array(items) => {
                let mut copy: Vec<HostValue> = Vec::new();
                let mut i: usize = 0;
                while i < items.len()
                    invariant
                        *self == HostValue::Array(*items),
                        i <= items.len(),
                        copy@.len() == i,
                        forall|j: int| 0 <= j < i ==> (#[trigger] copy@[j])@ == items@[j]@,
                    decreases items.len() - i,
                {
                    proof {
                        vstd::std_specs::vec::axiom_vec_index_decreases(*items, i as int);
                        assert(decreases_to!(*self => self->Array_0));
                    }
                    let item = items[i].duplicate();
                    copy.push(item);
                    i += 1;
                }
                let out = HostValue::Array(copy);
                proof {
                    lemma_items_model(copy@, copy@.len());
                    lemma_items_model(items@, items@.len());
                }
                assert(out@->Array_0 =~= self@->Array_0);
                out
            },
            HostValue::Object(fields) => {
                let mut copy: Vec<HostField> = Vec::new();
                let mut i: usize = 0;
                while i < fields.len()
                    invariant
                        *self == HostValue::Object(*fields),
                        i <= fields.len(),
                        copy@.len() == i,
                        forall|j: int| 0 <= j < i ==> (#[trigger] copy@[j])@ == fields@[j]@,
                    decreases fields.len() - i,
                {
                    proof {
                        vstd::std_specs::vec::axiom_vec_index_decreases(*fields, i as int);
                        assert(decreases_to!(*self => self->Object_0));
                        assert(decreases_to!(fields[i as int] => fields[i as int].value));
                    }
                    let value = fields[i].value.duplicate();
                    copy.push(
                        HostField { key: fields[i].key.clone(), value, listed: fields[i].listed },
                    );
                    i += 1;
                }
                let out = HostValue::Object(copy);
                proof {
                    lemma_fields_model(copy@, copy@.len());
                    lemma_fields_model(fields@, fields@.len());
                }
                assert(out@->Object_0 =~= self@->Object_0);
                out
            },
            HostValue::Function(handle) => HostValue::Function(*handle),
            HostValue::Other(kind) => HostValue::Other(kind.clone()),
        }
    }

    /// Looks the property `key` up without copying it. `None` stands for
    /// `undefined`.
    pub fn find(&self, key: &str) -> (found: WalletResult<Option<&HostValue>>)
        ensures
            match self@.property(key@) {
                Err(error) => found is Err && found->Err_0@ == error,
                Ok(value) => found is Ok && match found->Ok_0 {
                    Some(child) => child@ == value,
                    None => value is Undefined,
                },
            },
    {
        match self {
            HostValue::Object(fields) => {
                proof {
                    lemma_fields_model(fields@, fields@.len());
                }
                let mut i: usize = 0;
                while i < fields.len()
                    invariant
                        i <= fields.len(),
                        self@ == HostModel::Object(fields_model(fields@, fields@.len())),
                        fields_model(fields@, fields@.len()).len() == fields@.len(),
                        forall|j: int|
                            0 <= j < fields@.len() ==> (#[trigger] fields_model(
                                fields@,
                                fields@.len(),
                            )[j]) == fields@[j]@,
                        property_from(self@->Object_0, key@, 0) == property_from(
                            self@->Object_0,
                            key@,
                            i as int,
                        ),
                    decreases fields.len() - i,
                {
                    if same_text(fields[i].key.as_str(), key) {
                        return Ok(Some(&fields[i].value));
                    }
                    i += 1;
                }
                Ok(None)
            },
            HostValue::Bytes(_) => Ok(None),
            HostValue::Array(_) => Ok(None),
            HostValue::Function(_) => Ok(None),
            HostValue::Undefined => Err(WalletError::ValueNotFound),
            HostValue::Null => Err(WalletError::ValueNotFound),
            _ => Err(crate::reflection::Reflection::concat_error("object", self.kind_name().as_str())),
        }
    }

    /// The string the value holds.
    pub fn as_text(&self) -> (text: WalletResult<String>)
        ensures
            outcome(text) == self@.as_text(),
    {
        match self {
            HostValue::Text(text) => Ok(text.clone()),
            HostValue::Undefined => Err(WalletError::ValueNotFound),
            HostValue::Null => Err(WalletError::ValueNotFound),
            _ => Err(crate::reflection::Reflection::concat_error("string", self.kind_name().as_str())),
        }
    }

    /// The bytes the value views.
    pub fn as_bytes(&self) -> (bytes: WalletResult<Vec<u8>>)
        ensures
            outcome(bytes) == self@.as_bytes(),
    {
        match self {
            HostValue::Bytes(bytes) => Ok(copy_bytes(bytes)),
            HostValue::Undefined => Err(WalletError::ValueNotFound),
            HostValue::Null => Err(WalletError::ValueNotFound),
            _ => Err(crate::reflection::Reflection::concat_error("Uint8Array", self.kind_name().as_str())),
        }
    }

    /// The items of the array the value is.
    pub fn as_array(&self) -> (items: WalletResult<Vec<HostValue>>)
        ensures
            match self@.as_array() {
                Err(error) => items is Err && items->Err_0@ == error,
                Ok(wanted) => items is Ok && models(items->Ok_0@) == wanted,
            },
    {
        match self {
            HostValue::Array(items) => {
                let mut copy: Vec<HostValue> = Vec::new();
                let mut i: usize = 0;
                while i < items.len()
                    invariant
                        i <= items.len(),
                        copy@.len() == i,
                        forall|j: int| 0 <= j < i ==> (#[trigger] copy@[j])@ == items@[j]@,
                    decreases items.len() - i,
                {
                    let item = items[i].duplicate();
                    copy.push(item);
                    i += 1;
                }
                proof {
                    lemma_items_model(copy@, copy@.len());
                    lemma_items_model(items@, items@.len());
                    assert(models(copy@) =~= self@->Array_0);
                }
                Ok(copy)
            },
            HostValue::Undefined => Err(WalletError::ValueNotFound),
            HostValue::Null => Err(WalletError::ValueNotFound),
            _ => Err(crate::reflection::Reflection::concat_error("Array", self.kind_name().as_str())),
        }
    }

    /// The handle of the callable the value is.
    pub fn as_function(&self) -> (handle: WalletResult<u64>)
        ensures
            outcome(handle) == self@.as_function(),
    {
        match self {
            HostValue::Function(handle) => Ok(*handle),
            HostValue::Undefined => Err(WalletError::ValueNotFound),
            HostValue::Null => Err(WalletError::ValueNotFound),
            _ => Err(crate::reflection::Reflection::concat_error("function", self.kind_name().as_str())),
        }
    }

    /// The keys that the host lists for the object the value is, each once,
    /// in the order of their first occurrence.
    pub fn as_keys(&self) -> (keys: WalletResult<Vec<String>>)
        ensures
            match self@.as_keys() {
                Err(error) => keys is Err && keys->Err_0@ == error,
                Ok(wanted) => keys is Ok && texts(keys->Ok_0@) == wanted,
            },
    {
        match self {
            HostValue::Object(fields) => {
                proof {
                    lemma_fields_model(fields@, fields@.len());
                }
                let ghost model = fields_model(fields@, fields@.len());
                let mut keys: Vec<String> = Vec::new();
                let mut i: usize = 0;
                while i < fields.len()
                    invariant
                        i <= fields.len(),
                        model.len() == fields@.len(),
                        forall|j: int| 0 <= j < fields@.len() ==> (#[trigger] model[j]) == fields@[j]@,
                        texts(keys@) == distinct_keys(model, i as nat),
                    decreases fields.len() - i,
                {
                    let mut seen: bool = false;
                    let mut k: usize = 0;
                    while k < keys.len()
                        invariant
                            k <= keys.len(),
                            i < fields.len(),
                            seen == texts(keys@).subrange(0, k as int).contains(fields@[i as int].key@),
                        decreases keys.len() - k,
                    {
                        if same_text(keys[k].as_str(), fields[i].key.as_str()) {
                            seen = true;
                        }
                        assert(texts(keys@).subrange(0, k + 1) == texts(keys@).subrange(
                            0,
                            k as int,
                        ).push(keys@[k as int]@));
                        proof {
                            let shorter = texts(keys@).subrange(0, k as int);
                            let longer = shorter.push(keys@[k as int]@);
                            let wanted = fields@[i as int].key@;
                            if shorter.contains(wanted) {
                                let at = choose|at: int| 0 <= at < shorter.len() && shorter[at] == wanted;
                                assert(longer[at] == wanted);
                            }
                            if keys@[k as int]@ == wanted {
                                assert(longer[k as int] == wanted);
                            }
                        }
                        k += 1;
                    }
                    assert(texts(keys@).subrange(0, k as int) == texts(keys@));
                    assert(model[i as int] == fields@[i as int]@);
                    if fields[i].listed && !seen {
                        let ghost before = texts(keys@);
                        keys.push(fields[i].key.clone());
                        assert(texts(keys@) == before.push(fields@[i as int].key@));
                    }
                    i += 1;
                }
                Ok(keys)
            },
            HostValue::Undefined => Err(WalletError::ValueNotFound),
            HostValue::Null => Err(WalletError::ValueNotFound),
            _ => Err(crate::reflection::Reflection::concat_error("Object", self.kind_name().as_str())),
        }
    }

    /// The name of the property that the host means by the value when it
    /// is used as a key, where the core knows it.
    pub fn key_form(&self) -> (name: Option<String>)
        ensures
            match self@.key_form() {
                Some(wanted) => name is Some && name->Some_0@ == wanted,
                None => name is None,
            },
    {
        match self {
            HostValue::Text(text) => Some(text.clone()),
            HostValue::Number(written) => Some(written.clone()),
            HostValue::Boolean(flag) => {
                if *flag {
                    Some(String::from_str("true"))
                } else {
                    Some(String::from_str("false"))
                }
            },
            HostValue::Undefined => Some(String::from_str("undefined")),
            HostValue::Null => Some(String::from_str("null")),
            _ => None,
        }
    }

    /// Whether the value is `null` or `undefined`.
    pub fn is_absent(&self) -> (absent: bool)
        ensures
            absent == self@.is_absent(),
    {
        match self {
            HostValue::Undefined => true,
            HostValue::Null => true,
            _ => false,
        }
    }

    /// The name the host's `typeof` gives the value.
    pub fn kind_name(&self) -> (name: String)
        ensures
            name@ == self@.kind_name(),
    {
        match self {
            HostValue::Undefined => String::from_str("undefined"),
            HostValue::Boolean(_) => String::from_str("boolean"),
            HostValue::Text(_) => String::from_str("string"),
            HostValue::Number(_) => String::from_str("number"),
            HostValue::Function(_) => String::from_str("function"),
            HostValue::Other(kind) => kind.clone(),
            _ => String::from_str("object"),
        }
    }
}

} // verus!
