//! An account within a wallet.

use crate::codec::{base58_encode, base58_text};
use crate::error::{WalletError, WalletErrorView, WalletResult};
use crate::host::{texts, HostModel, HostValue};
use crate::text::same_text;
use crate::utils::PublicKeyBytes;
use vstd::prelude::*;

verus! {

/// An identity within a wallet. Its address is the Base58 text of its
/// public key.
#[derive(Debug, PartialEq, Eq, PartialOrd, Ord, Hash)]
pub struct WalletAccount {
    address: String,
    public_key: [u8; 32],
    chains: Vec<String>,
    features: Vec<String>,
    label: Option<String>,
    icon: Option<String>,
}

/// Mathematical model of a [`WalletAccount`].
pub struct WalletAccountView {
    pub address: Seq<char>,
    pub public_key: Seq<u8>,
    pub chains: Seq<Seq<char>>,
    pub features: Seq<Seq<char>>,
    pub label: Option<Seq<char>>,
    pub icon: Option<Seq<char>>,
}

/// The contents of an optional string.
pub open spec fn optional_text(text: Option<String>) -> Option<Seq<char>> {
    match text {
        Some(text) => Some(text@),
        None => None,
    }
}

impl WalletAccountView {
    /// What holds of every account: the address is the Base58 text of the
    /// public key, which has 32 bytes.
    pub open spec fn valid(self) -> bool {
        &&& self.public_key.len() == 32
        &&& self.address == base58_text(self.public_key)
    }
}

impl View for WalletAccount {
    type V = WalletAccountView;

    closed spec fn view(&self) -> WalletAccountView {
        WalletAccountView {
            address: self.address@,
            public_key: self.public_key@,
            chains: texts(self.chains@),
            features: texts(self.features@),
            label: optional_text(self.label),
            icon: optional_text(self.icon),
        }
    }
}

/// What reading an account from a host value yields. The fields are read in
/// the order `address`, `publicKey`, `chains`, `features`, `label`, `icon`,
/// and the first failure is the result.
pub open spec fn account_outcome(item: HostModel, prefix: Seq<char>) -> Result<
    WalletAccountView,
    WalletErrorView,
> {
    match item.text_at("address"@) {
        Err(error) => Err(error),
        Ok(address) => match item.bytes32_at("publicKey"@) {
            Err(error) => Err(error),
            Ok(public_key) => if address != base58_text(public_key) {
                Err(WalletErrorView::InvalidBase58Address)
            } else {
                match item.family_at("chains"@, prefix) {
                    Err(error) => Err(error),
                    Ok(chains) => match item.texts_at("features"@) {
                        Err(error) => Err(error),
                        Ok(features) => match item.optional_text_at("label"@) {
                            Err(error) => Err(error),
                            Ok(label) => match item.optional_text_at("icon"@) {
                                Err(error) => Err(error),
                                Ok(icon) => Ok(
                                    WalletAccountView {
                                        address,
                                        public_key,
                                        chains,
                                        features,
                                        label,
                                        icon,
                                    },
                                ),
                            },
                        },
                    },
                }
            },
        },
    }
}

/// A copy of `items`.
pub fn copy_texts(items: &Vec<String>) -> (copy: Vec<String>)
    ensures
        texts(copy@) == texts(items@),
{
    let mut copy: Vec<String> = Vec::new();
    let mut i: usize = 0;
    while i < items.len()
        invariant
            i <= items.len(),
            copy@.len() == i,
            forall|j: int| 0 <= j < i ==> (#[trigger] copy@[j])@ == items@[j]@,
        decreases items.len() - i,
    {
        copy.push(items[i].clone());
        i += 1;
    }
    assert(texts(copy@) =~= texts(items@));
    copy
}

/// A copy of `text`.
pub fn copy_optional_text(text: &Option<String>) -> (copy: Option<String>)
    ensures
        optional_text(copy) == optional_text(*text),
{
    match text {
        Some(text) => Some(text.clone()),
        None => None,
    }
}

impl WalletAccount {
    #[verifier::type_invariant]
    spec fn well_formed(self) -> bool {
        self@.valid()
    }

    /// Reads an account from what a wallet announced. Chains outside the
    /// family `prefix` and an address that is not the Base58 text of the
    /// public key are refused.
    pub fn parse(item: &HostValue, prefix: &str) -> (account: WalletResult<WalletAccount>)
        ensures
            crate::host::outcome(account) == account_outcome(item@, prefix@),
            account is Ok ==> account->Ok_0@.valid(),
    {
        let address = item.text_at("address")?;
        let public_key = item.bytes32_at("publicKey")?;
        let expected = base58_encode(public_key.as_slice());
        if !same_text(address.as_str(), expected.as_str()) {
            return Err(WalletError::InvalidBase58Address);
        }
        let chains = item.family_at("chains", prefix)?;
        let features = item.texts_at("features")?;
        let label = item.optional_text_at("label")?;
        let icon = item.optional_text_at("icon")?;
        Ok(WalletAccount { address, public_key, chains, features, label, icon })
    }

    /// The account's address: the Base58 text of its public key.
    pub fn address(&self) -> (address: &String)
        ensures
            address@ == self@.address,
            self@.valid(),
    {
        proof {
            use_type_invariant(self);
        }
        &self.address
    }

    /// The account's public key.
    pub fn public_key(&self) -> (public_key: PublicKeyBytes)
        ensures
            public_key@ == self@.public_key,
    {
        self.public_key
    }

    /// The chains the account claims, all of the family it was read for.
    pub fn chains(&self) -> (chains: &Vec<String>)
        ensures
            texts(chains@) == self@.chains,
    {
        &self.chains
    }

    /// The features the account claims.
    pub fn features(&self) -> (features: &Vec<String>)
        ensures
            texts(features@) == self@.features,
    {
        &self.features
    }

    /// The account's label, where it has one.
    pub fn label(&self) -> (label: &Option<String>)
        ensures
            optional_text(*label) == self@.label,
    {
        &self.label
    }

    /// The account's icon, where it has one.
    pub fn icon(&self) -> (icon: &Option<String>)
        ensures
            optional_text(*icon) == self@.icon,
    {
        &self.icon
    }

    /// A copy of the account.
    pub fn duplicate(&self) -> (copy: WalletAccount)
        ensures
            copy@ == self@,
    {
        proof {
            use_type_invariant(self);
        }
        WalletAccount {
            address: self.address.clone(),
            public_key: self.public_key,
            chains: copy_texts(&self.chains),
            features: copy_texts(&self.features),
            label: copy_optional_text(&self.label),
            icon: copy_optional_text(&self.icon),
        }
    }
}

impl Clone for WalletAccount {
    fn clone(&self) -> (copy: Self)
        ensures
            copy@ == self@,
    {
        self.duplicate()
    }
}

} // verus!
