//! The checks on a pair of oracle accounts, on values already read from them.
//!
//! Reading the accounts is the caller's part. What is decided here is whether
//! a product account and a price account belong together, so that a price
//! account cannot be passed off as the feed of a product it does not serve.
use vstd::prelude::*;

verus! {

/// The magic number at the start of every oracle account.
pub const MAGIC: u32 = 0xa1b2c3d4;

/// The account layout version that is understood.
pub const VERSION_2: u32 = 2;

/// The account type of a product account.
pub const ACCOUNT_TYPE_PRODUCT: u32 = 2;

/// The address of a ledger account: thirty-two bytes.
#[derive(Clone, Copy, Debug, PartialEq, Eq)]
pub struct Address {
    /// The bytes of the address.
    pub bytes: [u8; 32],
}

impl Address {
    /// Whether two addresses hold the same bytes.
    pub open spec fn spec_same(self, other: Address) -> bool {
        self.bytes@ =~= other.bytes@
    }

    /// Whether two addresses hold the same bytes.
    pub fn same(&self, other: &Address) -> (r: bool)
        ensures
            r == self.spec_same(*other),
    {
        let mut i: usize = 0;
        while i < 32
            invariant
                i <= 32,
                forall|j: int| 0 <= j < i ==> self.bytes@[j] == other.bytes@[j],
            decreases 32 - i,
        {
            if self.bytes[i] != other.bytes[i] {
                return false;
            }
            i = i + 1;
        }
        true
    }
}

/// The oracle settings that a pool keeps.
#[derive(Clone, Copy, Debug, PartialEq, Eq)]
pub struct PythSettings {
    /// The product account of the feed.
    pub pyth_product_account: Address,
    /// The price account of the feed.
    pub pyth_price_account: Address,
    /// The price last seen, for the slots in which the feed gives none.
    pub last_known_price: i64,
    /// The power of ten that the price is to be multiplied by; negative for
    /// digits after the point.
    pub price_exponent: i32,
}

impl PythSettings {
    /// The number of decimal digits of the price, where the exponent stands
    /// for one: an exponent `-d` with `0 <= d <= 255` gives `d`.
    pub open spec fn spec_price_decimals(self) -> Option<u8> {
        if -255 <= self.price_exponent <= 0 {
            Some((-self.price_exponent) as u8)
        } else {
            None
        }
    }

    /// What [`PythSettings::price_or_last_known`] returns.
    pub open spec fn spec_price_or_last_known(self, live_price: Option<i64>) -> Option<u64> {
        let price: i64 = match live_price {
            Some(price) => price,
            None => self.last_known_price,
        };
        if price > 0 {
            Some(price as u64)
        } else {
            None
        }
    }

    /// The oracle price to price a swap with: the live price where the feed
    /// gives one, else the price last seen. A price that is not positive is
    /// no price: the result is `None`.
    pub fn price_or_last_known(&self, live_price: Option<i64>) -> (r: Option<u64>)
        ensures
            r == self.spec_price_or_last_known(live_price),
    {
        let price: i64 = match live_price {
            Some(price) => price,
            None => self.last_known_price,
        };
        if price > 0 {
            Some(price as u64)
        } else {
            None
        }
    }

    /// The number of decimal digits of the price, or `None` where the
    /// exponent is positive or below -255 and so stands for no decimal count.
    pub fn price_decimals(&self) -> (r: Option<u8>)
        ensures
            r == self.spec_price_decimals(),
    {
        if -255 <= self.price_exponent && self.price_exponent <= 0 {
            Some((0 - self.price_exponent) as u8)
        } else {
            None
        }
    }
}

/// Why a pair of oracle accounts is refused.
#[derive(Clone, Copy, Debug, PartialEq, Eq, Structural)]
pub enum PythErrors {
    /// The product account has another magic number.
    InvalidMagicNumber,
    /// An account could not be read as what it is passed as.
    InvalidAccount,
    /// The product account is of another account type.
    InvalidAccountType,
    /// The product account has another layout version.
    InvalidAccountVersion,
    /// The product account names no price account.
    PriceAccountMarkedInvalid,
    /// The product account names another price account.
    InvalidPriceAccount,
}

impl PythErrors {
    /// What the error tells the user.
    pub fn message(&self) -> (s: &'static str)
        ensures
            s@ == Self::spec_message(*self),
    {
        match self {
            PythErrors::InvalidMagicNumber => {
                "Pyth product account provided has an invalid MAGIC number"
            },
            PythErrors::InvalidAccount => "Pyth product account is invalid",
            PythErrors::InvalidAccountType => {
                "Pyth product account provided has an invalid account type"
            },
            PythErrors::InvalidAccountVersion => {
                "Pyth product account provided has a different version than the Pyth client"
            },
            PythErrors::PriceAccountMarkedInvalid => {
                "Pyth product price account is marked as invalid"
            },
            PythErrors::InvalidPriceAccount => {
                "Pyth price account does not match the Pyth price account provided"
            },
        }
    }

    /// The text that [`PythErrors::message`] returns.
    pub open spec fn spec_message(e: PythErrors) -> Seq<char> {
        match e {
            PythErrors::InvalidMagicNumber => {
                "Pyth product account provided has an invalid MAGIC number"@
            },
            PythErrors::InvalidAccount => "Pyth product account is invalid"@,
            PythErrors::InvalidAccountType => {
                "Pyth product account provided has an invalid account type"@
            },
            PythErrors::InvalidAccountVersion => {
                "Pyth product account provided has a different version than the Pyth client"@
            },
            PythErrors::PriceAccountMarkedInvalid => {
                "Pyth product price account is marked as invalid"@
            },
            PythErrors::InvalidPriceAccount => {
                "Pyth price account does not match the Pyth price account provided"@
            },
        }
    }
}

/// What is read from the head of a product account.
#[derive(Clone, Copy, Debug, PartialEq, Eq)]
pub struct ProductAccount {
    /// The magic number.
    pub magic: u32,
    /// The layout version.
    pub ver: u32,
    /// The account type.
    pub atype: u32,
    /// The first price account of the product.
    pub px_acc: Address,
    /// Whether the product names a price account at all.
    pub px_acc_is_valid: bool,
}

/// What is read from a price account.
#[derive(Clone, Copy, Debug, PartialEq, Eq, Structural)]
pub struct PriceAccount {
    /// The aggregate price.
    pub price: i64,
    /// The exponent of the price.
    pub expo: i32,
}

/// The two oracle accounts that came with an instruction: their addresses,
/// and what could be read from each, `None` where the account does not read
/// as what it is passed as.
#[derive(Clone, Copy, Debug, PartialEq, Eq)]
pub struct PythAccounts {
    /// The address of the account passed as the product account.
    pub product_key: Address,
    /// The address of the account passed as the price account.
    pub price_key: Address,
    /// The product account as read.
    pub product: Option<ProductAccount>,
    /// The price account as read.
    pub price: Option<PriceAccount>,
}

/// What [`pyth_accounts_security_check`] returns for a pair of accounts: the
/// first check that fails, in the order of the match arms, or the settings.
pub open spec fn spec_pyth_pair_check(accounts: PythAccounts) -> Result<PythSettings, PythErrors> {
    match accounts.product {
        None => Err(PythErrors::InvalidAccount),
        Some(product) => if product.magic != MAGIC {
            Err(PythErrors::InvalidMagicNumber)
        } else if product.atype != ACCOUNT_TYPE_PRODUCT {
            Err(PythErrors::InvalidAccountType)
        } else if product.ver != VERSION_2 {
            Err(PythErrors::InvalidAccountVersion)
        } else if !product.px_acc_is_valid {
            Err(PythErrors::PriceAccountMarkedInvalid)
        } else if !product.px_acc.spec_same(accounts.price_key) {
            Err(PythErrors::InvalidPriceAccount)
        } else {
            match accounts.price {
                None => Err(PythErrors::InvalidAccount),
                Some(price) => Ok(
                    PythSettings {
                        pyth_product_account: accounts.product_key,
                        pyth_price_account: accounts.price_key,
                        last_known_price: price.price,
                        price_exponent: price.expo,
                    },
                ),
            }
        },
    }
}

/// Checks that the product account and the price account that came with an
/// instruction belong together, and gives the settings to keep for them.
///
/// Without a pair of accounts there is nothing to check and nothing to keep:
/// the result is `Ok(None)`. With a pair, the product account must read as a
/// product account of the understood version, must name a price account, and
/// must name the very account that was passed as the price account, which
/// must read as one.
pub fn pyth_accounts_security_check(accounts: Option<PythAccounts>) -> (r: Result<
    Option<PythSettings>,
    PythErrors,
>)
    ensures
        accounts is None ==> r == Ok::<Option<PythSettings>, PythErrors>(None),
        accounts matches Some(pair) ==> r == match spec_pyth_pair_check(pair) {
            Ok(settings) => Ok::<Option<PythSettings>, PythErrors>(Some(settings)),
            Err(e) => Err(e),
        },
{
    let pair: PythAccounts = match accounts {
        None => {
            return Ok(None);
        },
        Some(pair) => pair,
    };
    let product: ProductAccount = match pair.product {
        None => {
            return Err(PythErrors::InvalidAccount);
        },
        Some(product) => product,
    };
    if product.magic != MAGIC {
        return Err(PythErrors::InvalidMagicNumber);
    }
    if product.atype != ACCOUNT_TYPE_PRODUCT {
        return Err(PythErrors::InvalidAccountType);
    }
    if product.ver != VERSION_2 {
        return Err(PythErrors::InvalidAccountVersion);
    }
    if !product.px_acc_is_valid {
        return Err(PythErrors::PriceAccountMarkedInvalid);
    }
    if !product.px_acc.same(&pair.price_key) {
        return Err(PythErrors::InvalidPriceAccount);
    }
    match pair.price {
        None => Err(PythErrors::InvalidAccount),
        Some(price) => Ok(
            Some(
                PythSettings {
                    pyth_product_account: pair.product_key,
                    pyth_price_account: pair.price_key,
                    last_known_price: price.price,
                    price_exponent: price.expo,
                },
            ),
        ),
    }
}

} // verus!
