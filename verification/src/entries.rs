//! The records of the shop: plain data, and the few rules that read them.

use crate::search::{Searchable, Searcher};
use crate::text::{lowercase_of, lowercased};
use vstd::prelude::*;

verus! {

/// How a product can be paid for.
#[derive(Clone, Copy, Debug, PartialEq, Eq, Structural)]
pub enum PaymentMethod {
    Cash,
    Card,
    Both,
}

impl PaymentMethod {
    /// Whether a card is accepted.
    pub fn supports_card(&self) -> (b: bool)
        ensures
            b == (*self == PaymentMethod::Card || *self == PaymentMethod::Both),
    {
        match self {
            PaymentMethod::Card | PaymentMethod::Both => true,
            _ => false,
        }
    }
}

/// Who can see a product.
#[derive(Clone, Copy, Debug, PartialEq, Eq, Structural)]
pub enum ProductVisibility {
    All,
    Personal,
    Merchants,
}

/// What a user may do. Each role includes the ones before it.
#[derive(Clone, Copy, Debug, PartialEq, Eq, Structural)]
pub enum Role {
    User,
    Merchant,
    Moderator,
}

impl Role {
    /// The rank of a role: users 0, merchants 1, moderators 2.
    pub open spec fn rank(&self) -> int {
        match self {
            Role::User => 0,
            Role::Merchant => 1,
            Role::Moderator => 2,
        }
    }

    /// Whether this role includes the role `at_least`.
    pub fn is_at_least(&self, at_least: Role) -> (b: bool)
        ensures
            b == (self.rank() >= at_least.rank()),
    {
        match at_least {
            Role::User => true,
            Role::Merchant => *self == Role::Merchant || *self == Role::Moderator,
            Role::Moderator => *self == Role::Moderator,
        }
    }
}

/// How a sale came about.
#[derive(Clone, Copy, Debug, PartialEq, Eq, Structural)]
pub enum SaleType {
    HandToHand,
    Order,
    Redeem,
}

/// How far an order has come.
#[derive(Clone, Copy, Debug, PartialEq, Eq, Structural)]
pub enum OrderStage {
    Paid,
    Negotiated,
    WaitForPayment,
    Completed,
    Cancelled,
}

/// Something that can be sold.
#[derive(Clone, Debug)]
pub struct Item {
    pub id: String,
    pub name: String,
    pub inline_desc: String,
    pub full_desc: String,
    pub image_url: String,
}

/// Someone who sells.
#[derive(Clone, Debug)]
pub struct Merchant {
    pub name: String,
    pub location: String,
    pub address: String,
}

/// A phrase in the languages of the shop. A lone hyphen stands for a missing
/// wording.
#[derive(Clone, Debug)]
pub struct Localization {
    pub key_phrase: String,
    pub en: String,
    pub ru: String,
}

/// Whether a wording is there: it is not the lone hyphen.
pub open spec fn worded(text: Seq<char>) -> bool {
    text != seq!['-']
}

impl Localization {
    /// The phrase in the language `lang`: Russian for `ru` where there is a
    /// Russian wording, else English where there is an English one, else
    /// the key phrase itself.
    pub fn get(&self, lang: &str) -> (phrase: String)
        ensures
            phrase@ == if lang@ == seq!['r', 'u'] && worded(self.ru@) {
                self.ru@
            } else if worded(self.en@) {
                self.en@
            } else {
                self.key_phrase@
            },
    {
        let hyphen: String = "-".to_owned();
        let russian: String = "ru".to_owned();
        proof {
            reveal_strlit("-");
            reveal_strlit("ru");
            assert(hyphen@ =~= seq!['-']);
            assert(russian@ =~= seq!['r', 'u']);
        }
        let wanted: String = lang.to_owned();
        if wanted == russian && self.ru != hyphen {
            self.ru.clone()
        } else if self.en != hyphen {
            self.en.clone()
        } else {
            self.key_phrase.clone()
        }
    }
}

/// A record together with the row it stands in.
#[derive(Clone, Debug, PartialEq)]
pub struct Row<E> {
    pub row: usize,
    pub entry: E,
}

impl<E> Row<E> {
    /// The record `entry` at row `idx`.
    pub fn new(idx: usize, entry: E) -> (r: Self)
        ensures
            r.row == idx,
            r.entry == entry,
    {
        Row { row: idx, entry }
    }

    /// The record.
    pub fn as_ref(&self) -> (e: &E)
        ensures
            *e == self.entry,
    {
        &self.entry
    }
}

/// Why a currency could not be read.
#[derive(Debug)]
pub enum CurrencyError {
    Custom(String),
}

impl CurrencyError {
    /// The message of this error.
    pub fn to_string(&self) -> (s: String)
        ensures
            s@ == self.message(),
    {
        match self {
            CurrencyError::Custom(msg) => msg.clone(),
        }
    }

    /// The message of this error, as a character sequence.
    pub open spec fn message(&self) -> Seq<char> {
        match self {
            CurrencyError::Custom(msg) => msg@,
        }
    }
}

/// The search group that customers search in.
pub open spec fn user_group() -> Seq<char> {
    "USER"@
}

/// The search group that merchants search in.
pub open spec fn merchant_group() -> Seq<char> {
    "MERCHANT"@
}

/// What a group holds after `text` was written to it.
pub open spec fn written_to(before: Option<Seq<char>>, text: Seq<char>) -> Option<Seq<char>> {
    Some(
        match before {
            Some(h) => h + text,
            None => text,
        },
    )
}

/// What customers can find an item by: its name and its descriptions.
pub open spec fn item_user_text(item: &Item) -> Seq<char> {
    "name:"@ + item.name@ + " desc:"@ + item.inline_desc@ + " fdesc:"@ + item.full_desc@
}

/// What merchants can find an item by: its id, then what customers find it
/// by.
pub open spec fn item_merchant_text(item: &Item) -> Seq<char> {
    "id:"@ + item.id@ + " "@ + item_user_text(item)
}

/// What customers can find a merchant by: location and address.
pub open spec fn merchant_user_text(merchant: &Merchant) -> Seq<char> {
    "location:"@ + merchant.location@ + " address:"@ + merchant.address@
}

impl Searchable for Item {
    /// An item is appended, in lower case, to the group of the customers and
    /// to that of the merchants; the other groups are left alone.
    open spec fn fills(&self, before: &Searcher, after: &Searcher) -> bool {
        &&& after.haystack(user_group()) == written_to(
            before.haystack(user_group()),
            lowercased(item_user_text(self)),
        )
        &&& after.haystack(merchant_group()) == written_to(
            before.haystack(merchant_group()),
            lowercased(item_merchant_text(self)),
        )
        &&& forall|g: Seq<char>|
            g != user_group() && g != merchant_group() ==> after.haystack(g) == before.haystack(g)
    }

    /// Writes the item, in lower case, to the group of the customers and to
    /// that of the merchants.
    fn fill_haystack(&self, query: &mut Searcher) {
        proof {
            reveal_strlit("USER");
            reveal_strlit("MERCHANT");
            assert(user_group() != merchant_group()) by {
                assert(user_group().len() == 4);
                assert(merchant_group().len() == 8);
            }
        }
        let mut text: String = "name:".to_owned();
        text.append(self.name.as_str());
        text.append(" desc:");
        text.append(self.inline_desc.as_str());
        text.append(" fdesc:");
        text.append(self.full_desc.as_str());
        let mut full: String = "id:".to_owned();
        full.append(self.id.as_str());
        full.append(" ");
        full.append(text.as_str());
        query.write("USER".to_owned(), lowercase_of(text.as_str()));
        query.write("MERCHANT".to_owned(), lowercase_of(full.as_str()));
    }
}

impl Searchable for Merchant {
    /// A merchant is appended, in lower case, to the group of the customers;
    /// the other groups are left alone.
    open spec fn fills(&self, before: &Searcher, after: &Searcher) -> bool {
        &&& after.haystack(user_group()) == written_to(
            before.haystack(user_group()),
            lowercased(merchant_user_text(self)),
        )
        &&& forall|g: Seq<char>| g != user_group() ==> after.haystack(g) == before.haystack(g)
    }

    /// Writes the merchant, in lower case, to the group of the customers.
    fn fill_haystack(&self, query: &mut Searcher) {
        let mut text: String = "location:".to_owned();
        text.append(self.location.as_str());
        text.append(" address:");
        text.append(self.address.as_str());
        query.write("USER".to_owned(), lowercase_of(text.as_str()));
    }
}

} // verus!
