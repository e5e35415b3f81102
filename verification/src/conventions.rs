//! The conventions of the framework that a program is written against.
//!
//! The extractor hard-codes none of them: the number that error codes start
//! at, the bytes that precede every stored record, and the words by which a
//! declaration is recognized are all values of [`Conventions`].

use vstd::prelude::*;

verus! {

/// The conventions that extraction goes by.
#[derive(Debug, PartialEq, Eq)]
pub struct Conventions {
    /// The discriminant of the first declared error.
    pub error_base: u32,
    /// The number of bytes that precede the fields of every stored record.
    pub discriminator_size: u64,
    /// The type whose argument names the context of an entry point.
    pub context_carrier: String,
    /// The type whose argument names the record kept in an account.
    pub account_wrapper: String,
    /// The type of an account that must sign.
    pub signer_wrapper: String,
    /// The tag of a context record.
    pub context_tag: String,
    /// The tag of a record kept in an account.
    pub account_tag: String,
    /// The tag of a record of program state.
    pub state_tag: String,
    /// The tag of an enumeration of errors.
    pub error_tag: String,
    /// The marker of an account that the instruction changes.
    pub mutable_marker: String,
    /// The marker of an account that must sign.
    pub signer_marker: String,
    /// The marker of an account that the instruction creates.
    pub init_marker: String,
}

/// Mathematical model of [`Conventions`].
pub struct ConventionsModel {
    pub error_base: u32,
    pub discriminator_size: u64,
    pub context_carrier: Seq<char>,
    pub account_wrapper: Seq<char>,
    pub signer_wrapper: Seq<char>,
    pub context_tag: Seq<char>,
    pub account_tag: Seq<char>,
    pub state_tag: Seq<char>,
    pub error_tag: Seq<char>,
    pub mutable_marker: Seq<char>,
    pub signer_marker: Seq<char>,
    pub init_marker: Seq<char>,
}

impl DeepView for Conventions {
    type V = ConventionsModel;

    open spec fn deep_view(&self) -> ConventionsModel {
        ConventionsModel {
            error_base: self.error_base,
            discriminator_size: self.discriminator_size,
            context_carrier: self.context_carrier@,
            account_wrapper: self.account_wrapper@,
            signer_wrapper: self.signer_wrapper@,
            context_tag: self.context_tag@,
            account_tag: self.account_tag@,
            state_tag: self.state_tag@,
            error_tag: self.error_tag@,
            mutable_marker: self.mutable_marker@,
            signer_marker: self.signer_marker@,
            init_marker: self.init_marker@,
        }
    }
}

/// The conventions in common use: errors count from 6000, a stored record
/// starts with 8 bytes, and declarations are marked as the words say.
pub open spec fn standard_conventions() -> ConventionsModel {
    ConventionsModel {
        error_base: 6000,
        discriminator_size: 8,
        context_carrier: "Context"@,
        account_wrapper: "Account"@,
        signer_wrapper: "Signer"@,
        context_tag: "Accounts"@,
        account_tag: "account"@,
        state_tag: "state"@,
        error_tag: "error_code"@,
        mutable_marker: "mut"@,
        signer_marker: "signer"@,
        init_marker: "init"@,
    }
}

impl Conventions {
    /// The conventions in common use.
    pub fn standard() -> (res: Conventions)
        ensures
            res.deep_view() == standard_conventions(),
    {
        Conventions {
            error_base: 6000,
            discriminator_size: 8,
            context_carrier: "Context".to_owned(),
            account_wrapper: "Account".to_owned(),
            signer_wrapper: "Signer".to_owned(),
            context_tag: "Accounts".to_owned(),
            account_tag: "account".to_owned(),
            state_tag: "state".to_owned(),
            error_tag: "error_code".to_owned(),
            mutable_marker: "mut".to_owned(),
            signer_marker: "signer".to_owned(),
            init_marker: "init".to_owned(),
        }
    }
}

} // verus!
