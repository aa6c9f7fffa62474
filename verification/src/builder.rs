//! The state-tracked builder. The type of the builder handle encodes
//! which component may come next, so supplying components out of order
//! is rejected at compile time; the inner accumulation logic resolves
//! the positional meaning of an empty-prefix value at run time.

use vstd::prelude::*;

use crate::errors::ArnError;
use crate::model::{Account, Arn, ArnView, Category, Domain, Part, Parts, Root};
use crate::text::{str_eq, valid_seq};

verus! {

/// The mathematical value of a builder in progress: which mandatory
/// slots are filled, with what, and the parts gathered so far.
#[verifier::ext_equal]
pub ghost struct BuilderView {
    pub domain: Option<Seq<char>>,
    pub category: Option<Seq<char>>,
    pub account: Option<Seq<char>>,
    pub root: Option<Seq<char>>,
    pub parts: Seq<Seq<char>>,
}

impl BuilderView {
    /// The empty builder: nothing supplied yet.
    pub open spec fn empty() -> BuilderView {
        BuilderView {
            domain: None,
            category: None,
            account: None,
            root: None,
            parts: Seq::<Seq<char>>::empty(),
        }
    }

    /// Everything supplied so far passed the shared validation rule.
    pub open spec fn wf(self) -> bool {
        &&& (self.domain matches Some(d) ==> valid_seq(d))
        &&& (self.category matches Some(c) ==> valid_seq(c))
        &&& (self.account matches Some(a) ==> valid_seq(a))
        &&& (self.root matches Some(t) ==> valid_seq(t))
        &&& forall|i: int| 0 <= i < self.parts.len() ==> valid_seq(#[trigger] self.parts[i])
    }
}

/// Whether the assembly logic accepts one more value: the prefix token
/// must be recognized and the value must pass validation.
pub open spec fn step_ok(pre: BuilderView, prefix: Seq<char>, part: Seq<char>) -> bool {
    (prefix == "arn"@ || prefix == ""@ || prefix == ":"@) && valid_seq(part)
}

/// Where an accepted value lands. A `arn`-prefixed value is the
/// domain; an empty-prefix value fills the first unfilled slot of
/// category, account, root — in that order, and only behind a filled
/// predecessor — and past those it joins the parts, as a
/// `:`-prefixed value always does.
pub open spec fn step_view(pre: BuilderView, prefix: Seq<char>, part: Seq<char>) -> BuilderView {
    if prefix == "arn"@ {
        BuilderView { domain: Some(part), ..pre }
    } else if prefix == ""@ {
        if pre.domain is Some && pre.category is None {
            BuilderView { category: Some(part), ..pre }
        } else if pre.category is Some && pre.account is None {
            BuilderView { account: Some(part), ..pre }
        } else if pre.account is Some && pre.root is None {
            BuilderView { root: Some(part), ..pre }
        } else {
            BuilderView { parts: pre.parts.push(part), ..pre }
        }
    } else {
        BuilderView { parts: pre.parts.push(part), ..pre }
    }
}

/// The name of the slot a value is bound for, used to tag its
/// validation error.
pub open spec fn slot_name(pre: BuilderView, prefix: Seq<char>) -> Seq<char> {
    if prefix == "arn"@ {
        "domain"@
    } else if prefix == ""@ {
        if pre.domain is Some && pre.category is None {
            "category"@
        } else if pre.category is Some && pre.account is None {
            "account"@
        } else if pre.account is Some && pre.root is None {
            "root"@
        } else {
            "part"@
        }
    } else {
        "part"@
    }
}

/// The error a refused value gets: an unrecognized prefix token is
/// reported as such, and an invalid value is tagged with its slot.
pub open spec fn step_err(pre: BuilderView, prefix: Seq<char>, part: Seq<char>, e: ArnError) -> bool {
    if prefix != "arn"@ && prefix != ""@ && prefix != ":"@ {
        e matches ArnError::InvalidPrefix(t) && t@ == prefix
    } else {
        e matches ArnError::InvalidPart(n) && n@ == slot_name(pre, prefix)
    }
}

/// What finishing a builder yields: the first unfilled mandatory slot
/// is reported missing, in the order domain, category, account, root;
/// with all four filled the identifier is assembled from them.
pub open spec fn build_result(pre: BuilderView, r: Result<Arn, ArnError>) -> bool {
    if pre.domain is None {
        r matches Err(e) && e matches ArnError::MissingPart(n) && n@ == "domain"@
    } else if pre.category is None {
        r matches Err(e) && e matches ArnError::MissingPart(n) && n@ == "category"@
    } else if pre.account is None {
        r matches Err(e) && e matches ArnError::MissingPart(n) && n@ == "account"@
    } else if pre.root is None {
        r matches Err(e) && e matches ArnError::MissingPart(n) && n@ == "root"@
    } else {
        r matches Ok(a) && a@ == (ArnView {
            domain: pre.domain->0,
            category: pre.category->0,
            account: pre.account->0,
            root: pre.root->0,
            parts: pre.parts,
        })
    }
}

/// Positional inference: an accepted empty-prefix value
/// deterministically fills the first unfilled mandatory slot whose
/// predecessor is filled — category, then account, then root — and
/// once all four slots are filled it appends to the parts, as every
/// accepted `:`-prefixed value does.
pub proof fn lemma_positional_inference(pre: BuilderView, part: Seq<char>)
    requires
        valid_seq(part),
    ensures
        step_ok(pre, ""@, part),
        step_ok(pre, ":"@, part),
        pre.domain is Some && pre.category is None ==> step_view(pre, ""@, part)
            == (BuilderView { category: Some(part), ..pre }),
        pre.domain is Some && pre.category is Some && pre.account is None ==> step_view(
            pre,
            ""@,
            part,
        ) == (BuilderView { account: Some(part), ..pre }),
        pre.category is Some && pre.account is Some && pre.root is None ==> step_view(
            pre,
            ""@,
            part,
        ) == (BuilderView { root: Some(part), ..pre }),
        pre.domain is Some && pre.category is Some && pre.account is Some && pre.root is Some
            ==> step_view(pre, ""@, part) == (BuilderView { parts: pre.parts.push(part), ..pre }),
        step_view(pre, ":"@, part) == (BuilderView { parts: pre.parts.push(part), ..pre }),
{
    reveal_strlit("arn");
    reveal_strlit("");
    reveal_strlit(":");
    assert(""@.len() == 0);
    assert("arn"@.len() == 3);
    assert(":"@.len() == 1);
    assert(""@ != "arn"@ && ""@ != ":"@ && ":"@ != "arn"@);
}

/// A component kind the builder can accept: its prefix token and the
/// state the builder moves to once the kind has been supplied.
pub trait ArnComponent {
    /// The builder state that follows this component.
    type NextState;

    /// The kind's prefix token, as a mathematical value.
    spec fn spec_prefix() -> Seq<char>;

    /// The prefix token the assembly logic dispatches on.
    fn prefix() -> (r: &'static str)
        ensures
            r@ == Self::spec_prefix(),
    ;
}

impl ArnComponent for Domain {
    type NextState = Category;

    open spec fn spec_prefix() -> Seq<char> {
        "arn"@
    }

    fn prefix() -> (r: &'static str) {
        "arn"
    }
}

impl ArnComponent for Category {
    type NextState = Account;

    open spec fn spec_prefix() -> Seq<char> {
        ""@
    }

    fn prefix() -> (r: &'static str) {
        ""
    }
}

impl ArnComponent for Account {
    type NextState = Root;

    open spec fn spec_prefix() -> Seq<char> {
        ""@
    }

    fn prefix() -> (r: &'static str) {
        ""
    }
}

impl ArnComponent for Root {
    type NextState = Part;

    open spec fn spec_prefix() -> Seq<char> {
        ""@
    }

    fn prefix() -> (r: &'static str) {
        ""
    }
}

impl ArnComponent for Part {
    type NextState = Parts;

    open spec fn spec_prefix() -> Seq<char> {
        ":"@
    }

    fn prefix() -> (r: &'static str) {
        ":"
    }
}

impl ArnComponent for Parts {
    type NextState = Parts;

    open spec fn spec_prefix() -> Seq<char> {
        ":"@
    }

    fn prefix() -> (r: &'static str) {
        ":"
    }
}

/// The internal accumulator behind the typed builder handles.
#[derive(Debug)]
pub struct PrivateArnBuilder {
    domain: Option<Domain>,
    category: Option<Category>,
    account: Option<Account>,
    root: Option<Root>,
    parts: Parts,
}

impl View for PrivateArnBuilder {
    type V = BuilderView;

    closed spec fn view(&self) -> BuilderView {
        BuilderView {
            domain: match self.domain {
                Some(d) => Some(d@),
                None => None,
            },
            category: match self.category {
                Some(c) => Some(c@),
                None => None,
            },
            account: match self.account {
                Some(a) => Some(a@),
                None => None,
            },
            root: match self.root {
                Some(t) => Some(t@),
                None => None,
            },
            parts: self.parts@,
        }
    }
}

impl PrivateArnBuilder {
    /// Starts with nothing supplied.
    pub fn new() -> (r: PrivateArnBuilder)
        ensures
            r@ == BuilderView::empty(),
            r@.wf(),
    {
        let items: Vec<Part> = Vec::new();
        proof {
            assert(items.deep_view() =~~= Seq::<Seq<char>>::empty());
        }
        let r = PrivateArnBuilder {
            domain: None,
            category: None,
            account: None,
            root: None,
            parts: Parts::new(items),
        };
        proof {
            assert(r@ =~= BuilderView::empty());
        }
        r
    }

    /// Accepts one raw value for the slot its prefix token selects.
    pub fn add_part(self, prefix: &str, part: String) -> (r: Result<PrivateArnBuilder, ArnError>)
        ensures
            step_ok(self@, prefix@, part@) ==> (r matches Ok(b) && b@ == step_view(
                self@,
                prefix@,
                part@,
            )),
            !step_ok(self@, prefix@, part@) ==> (r matches Err(e) && step_err(
                self@,
                prefix@,
                part@,
                e,
            )),
            self@.wf() ==> (r matches Ok(b) ==> b@.wf()),
    {
        proof {
            reveal_strlit("arn");
            reveal_strlit("");
            reveal_strlit(":");
        }
        if str_eq(prefix, "arn") {
            match Domain::new(part) {
                Ok(d) => Ok(
                    PrivateArnBuilder { domain: Some(d), ..self },
                ),
                Err(e) => Err(e),
            }
        } else if str_eq(prefix, "") {
            if self.domain.is_some() && self.category.is_none() {
                match Category::new(part) {
                    Ok(c) => Ok(PrivateArnBuilder { category: Some(c), ..self }),
                    Err(e) => Err(e),
                }
            } else if self.category.is_some() && self.account.is_none() {
                match Account::new(part) {
                    Ok(a) => Ok(PrivateArnBuilder { account: Some(a), ..self }),
                    Err(e) => Err(e),
                }
            } else if self.account.is_some() && self.root.is_none() {
                match Root::new(part) {
                    Ok(t) => Ok(PrivateArnBuilder { root: Some(t), ..self }),
                    Err(e) => Err(e),
                }
            } else {
                match Part::new(part) {
                    Ok(p) => Ok(
                        PrivateArnBuilder { parts: self.parts.add_part(p), ..self },
                    ),
                    Err(e) => Err(e),
                }
            }
        } else if str_eq(prefix, ":") {
            match Part::new(part) {
                Ok(p) => Ok(PrivateArnBuilder { parts: self.parts.add_part(p), ..self }),
                Err(e) => Err(e),
            }
        } else {
            Err(ArnError::InvalidPrefix(String::from_str(prefix)))
        }
    }

    /// Finalizes the accumulator, reporting the first mandatory slot
    /// never supplied, or assembling the identifier.
    pub fn build(self) -> (r: Result<Arn, ArnError>)
        ensures
            build_result(self@, r),
            self@.wf() ==> (r matches Ok(a) ==> a@.wf()),
    {
        let domain = match self.domain {
            Some(d) => d,
            None => {
                return Err(ArnError::MissingPart(String::from_str("domain")));
            },
        };
        let category = match self.category {
            Some(c) => c,
            None => {
                return Err(ArnError::MissingPart(String::from_str("category")));
            },
        };
        let account = match self.account {
            Some(a) => a,
            None => {
                return Err(ArnError::MissingPart(String::from_str("account")));
            },
        };
        let root = match self.root {
            Some(t) => t,
            None => {
                return Err(ArnError::MissingPart(String::from_str("root")));
            },
        };
        Ok(Arn::new(domain, category, account, root, self.parts))
    }
}

/// A builder handle whose type parameter tracks which component the
/// required order expects next.
#[verifier::reject_recursive_types(State)]
pub struct ArnBuilder<State> {
    builder: PrivateArnBuilder,
    _marker: core::marker::PhantomData<State>,
}

impl<State> View for ArnBuilder<State> {
    type V = BuilderView;

    closed spec fn view(&self) -> BuilderView {
        self.builder@
    }
}

impl ArnBuilder<()> {
    /// Starts a fresh builder, expecting the domain first.
    pub fn new() -> (r: ArnBuilder<Domain>)
        ensures
            r@ == BuilderView::empty(),
            r@.wf(),
    {
        ArnBuilder { builder: PrivateArnBuilder::new(), _marker: core::marker::PhantomData }
    }
}

impl ArnBuilder<Part> {
    /// Finalizes the building process and constructs the identifier.
    pub fn build(self) -> (r: Result<Arn, ArnError>)
        ensures
            build_result(self@, r),
            self@.wf() ==> (r matches Ok(a) ==> a@.wf()),
    {
        self.builder.build()
    }
}

impl ArnBuilder<Parts> {
    /// Finalizes the building process and constructs the identifier
    /// once parts have been appended.
    pub fn build(self) -> (r: Result<Arn, ArnError>)
        ensures
            build_result(self@, r),
            self@.wf() ==> (r matches Ok(a) ==> a@.wf()),
    {
        self.builder.build()
    }
}

impl<T: ArnComponent> ArnBuilder<T> {
    /// Adds one raw value as component kind `N`, moving to the state
    /// that kind declares as next.
    pub fn with<N>(self, part: String) -> (r: Result<ArnBuilder<N::NextState>, ArnError>) where
        N: ArnComponent<NextState = T::NextState>,

        ensures
            step_ok(self@, N::spec_prefix(), part@) ==> (r matches Ok(b) && b@ == step_view(
                self@,
                N::spec_prefix(),
                part@,
            )),
            !step_ok(self@, N::spec_prefix(), part@) ==> (r matches Err(e) && step_err(
                self@,
                N::spec_prefix(),
                part@,
                e,
            )),
            self@.wf() ==> (r matches Ok(b) ==> b@.wf()),
    {
        match self.builder.add_part(N::prefix(), part) {
            Ok(b) => Ok(ArnBuilder { builder: b, _marker: core::marker::PhantomData }),
            Err(e) => Err(e),
        }
    }
}

} // verus!
