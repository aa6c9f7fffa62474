//! The data model: one value type per component, the sequence of path
//! parts, and the assembled identifier with its canonical text.

use vstd::prelude::*;

use crate::errors::ArnError;
use crate::text::{is_valid_component, join, lemma_join_cons, lemma_join_push, valid_seq};

verus! {

/// The first mandatory component of an identifier.
#[derive(Debug, Clone, PartialEq, Eq)]
pub struct Domain {
    value: String,
}

/// The second mandatory component of an identifier.
#[derive(Debug, Clone, PartialEq, Eq)]
pub struct Category {
    value: String,
}

/// The third mandatory component of an identifier.
#[derive(Debug, Clone, PartialEq, Eq)]
pub struct Account {
    value: String,
}

/// The fourth mandatory component of an identifier.
#[derive(Debug, Clone, PartialEq, Eq)]
pub struct Root {
    value: String,
}

/// One slash-delimited path segment after the root.
#[derive(Debug, Clone, PartialEq, Eq)]
pub struct Part {
    value: String,
}

impl View for Domain {
    type V = Seq<char>;

    closed spec fn view(&self) -> Seq<char> {
        self.value@
    }
}

impl View for Category {
    type V = Seq<char>;

    closed spec fn view(&self) -> Seq<char> {
        self.value@
    }
}

impl View for Account {
    type V = Seq<char>;

    closed spec fn view(&self) -> Seq<char> {
        self.value@
    }
}

impl View for Root {
    type V = Seq<char>;

    closed spec fn view(&self) -> Seq<char> {
        self.value@
    }
}

impl View for Part {
    type V = Seq<char>;

    closed spec fn view(&self) -> Seq<char> {
        self.value@
    }
}

impl DeepView for Part {
    type V = Seq<char>;

    open spec fn deep_view(&self) -> Seq<char> {
        self.view()
    }
}

impl Domain {
    /// Validates `value` and wraps it; the shared rule rejects empty
    /// values and values holding a delimiter.
    pub fn new(value: String) -> (r: Result<Domain, ArnError>)
        ensures
            valid_seq(value@) ==> (r matches Ok(d) && d@ == value@),
            !valid_seq(value@) ==> (r matches Err(e) && e matches ArnError::InvalidPart(n)
                && n@ == "domain"@),
    {
        if is_valid_component(value.as_str()) {
            Ok(Domain { value })
        } else {
            Err(ArnError::InvalidPart(String::from_str("domain")))
        }
    }

    /// The component's text.
    pub fn as_str(&self) -> (r: &str)
        ensures
            r@ == self@,
    {
        self.value.as_str()
    }

    /// The component's text as an owned string.
    pub fn to_string(&self) -> (r: String)
        ensures
            r@ == self@,
    {
        self.value.clone()
    }
}

impl Category {
    /// Validates `value` and wraps it; the shared rule rejects empty
    /// values and values holding a delimiter.
    pub fn new(value: String) -> (r: Result<Category, ArnError>)
        ensures
            valid_seq(value@) ==> (r matches Ok(c) && c@ == value@),
            !valid_seq(value@) ==> (r matches Err(e) && e matches ArnError::InvalidPart(n)
                && n@ == "category"@),
    {
        if is_valid_component(value.as_str()) {
            Ok(Category { value })
        } else {
            Err(ArnError::InvalidPart(String::from_str("category")))
        }
    }

    /// The component's text.
    pub fn as_str(&self) -> (r: &str)
        ensures
            r@ == self@,
    {
        self.value.as_str()
    }

    /// The component's text as an owned string.
    pub fn to_string(&self) -> (r: String)
        ensures
            r@ == self@,
    {
        self.value.clone()
    }
}

impl Account {
    /// Validates `value` and wraps it; the shared rule rejects empty
    /// values and values holding a delimiter.
    pub fn new(value: String) -> (r: Result<Account, ArnError>)
        ensures
            valid_seq(value@) ==> (r matches Ok(a) && a@ == value@),
            !valid_seq(value@) ==> (r matches Err(e) && e matches ArnError::InvalidPart(n)
                && n@ == "account"@),
    {
        if is_valid_component(value.as_str()) {
            Ok(Account { value })
        } else {
            Err(ArnError::InvalidPart(String::from_str("account")))
        }
    }

    /// The component's text.
    pub fn as_str(&self) -> (r: &str)
        ensures
            r@ == self@,
    {
        self.value.as_str()
    }

    /// The component's text as an owned string.
    pub fn to_string(&self) -> (r: String)
        ensures
            r@ == self@,
    {
        self.value.clone()
    }
}

impl Root {
    /// Validates `value` and wraps it; the shared rule rejects empty
    /// values and values holding a delimiter.
    pub fn new(value: String) -> (r: Result<Root, ArnError>)
        ensures
            valid_seq(value@) ==> (r matches Ok(t) && t@ == value@),
            !valid_seq(value@) ==> (r matches Err(e) && e matches ArnError::InvalidPart(n)
                && n@ == "root"@),
    {
        if is_valid_component(value.as_str()) {
            Ok(Root { value })
        } else {
            Err(ArnError::InvalidPart(String::from_str("root")))
        }
    }

    /// The component's text.
    pub fn as_str(&self) -> (r: &str)
        ensures
            r@ == self@,
    {
        self.value.as_str()
    }

    /// The component's text as an owned string.
    pub fn to_string(&self) -> (r: String)
        ensures
            r@ == self@,
    {
        self.value.clone()
    }
}

impl Part {
    /// Validates `value` and wraps it; the shared rule rejects empty
    /// values and values holding a delimiter.
    pub fn new(value: String) -> (r: Result<Part, ArnError>)
        ensures
            valid_seq(value@) ==> (r matches Ok(p) && p@ == value@),
            !valid_seq(value@) ==> (r matches Err(e) && e matches ArnError::InvalidPart(n)
                && n@ == "part"@),
    {
        if is_valid_component(value.as_str()) {
            Ok(Part { value })
        } else {
            Err(ArnError::InvalidPart(String::from_str("part")))
        }
    }

    /// The component's text.
    pub fn as_str(&self) -> (r: &str)
        ensures
            r@ == self@,
    {
        self.value.as_str()
    }

    /// The component's text as an owned string.
    pub fn to_string(&self) -> (r: String)
        ensures
            r@ == self@,
    {
        self.value.clone()
    }
}

/// The ordered sequence of path parts; empty is allowed and formats
/// to the empty string.
#[derive(Debug, Clone, PartialEq, Eq)]
pub struct Parts {
    items: Vec<Part>,
}

impl View for Parts {
    type V = Seq<Seq<char>>;

    closed spec fn view(&self) -> Seq<Seq<char>> {
        self.items.deep_view()
    }
}

impl Parts {
    /// Wraps an already-validated sequence of parts.
    pub fn new(items: Vec<Part>) -> (r: Parts)
        ensures
            r@ == items.deep_view(),
    {
        Parts { items }
    }

    /// Appends one part, keeping insertion order.
    pub fn add_part(self, part: Part) -> (r: Parts)
        ensures
            r@ == self@.push(part@),
    {
        let mut items = self.items;
        items.push(part);
        proof {
            assert(items.deep_view() =~~= self@.push(part@));
        }
        Parts { items }
    }

    /// How many parts the sequence holds.
    pub fn len(&self) -> (n: usize)
        ensures
            n == self@.len(),
    {
        self.items.len()
    }

    /// The part at position `i`.
    pub fn get(&self, i: usize) -> (r: &Part)
        requires
            i < self@.len(),
        ensures
            r@ == self@[i as int],
    {
        &self.items[i]
    }

    /// The parts joined by `/`; the empty sequence gives the empty
    /// string.
    pub fn to_string(&self) -> (r: String)
        ensures
            r@ == join(self@, '/'),
    {
        let mut out = String::new();
        let n = self.items.len();
        let mut i: usize = 0;
        proof {
            assert(self@.take(0) =~~= Seq::<Seq<char>>::empty());
        }
        while i < n
            invariant
                0 <= i <= n,
                n == self@.len(),
                self@ == self.items.deep_view(),
                out@ == join(self@.take(i as int), '/'),
            decreases n - i,
        {
            if i > 0 {
                out.append("/");
            }
            out.append(self.items[i].as_str());
            proof {
                reveal_strlit("/");
                assert("/"@ =~= seq!['/']);
                lemma_join_push(self@.take(i as int), self@[i as int], '/');
                assert(self@.take(i as int + 1) =~~= self@.take(i as int).push(
                    self@[i as int],
                ));
            }
            i = i + 1;
        }
        proof {
            assert(self@.take(n as int) =~~= self@);
        }
        out
    }
}

/// The mathematical value of an identifier: the text of its four
/// mandatory components and of its path parts.
#[verifier::ext_equal]
pub ghost struct ArnView {
    pub domain: Seq<char>,
    pub category: Seq<char>,
    pub account: Seq<char>,
    pub root: Seq<char>,
    pub parts: Seq<Seq<char>>,
}

impl ArnView {
    /// Every mandatory component is valid and every part is valid.
    pub open spec fn wf(self) -> bool {
        &&& valid_seq(self.domain)
        &&& valid_seq(self.category)
        &&& valid_seq(self.account)
        &&& valid_seq(self.root)
        &&& forall|i: int| 0 <= i < self.parts.len() ==> valid_seq(#[trigger] self.parts[i])
    }
}

/// The canonical text of an identifier:
/// `arn:<domain>:<category>:<account>:<root>[/<part>]*`.
pub open spec fn arn_text(v: ArnView) -> Seq<char> {
    join(seq!["arn"@, v.domain, v.category, v.account, join(seq![v.root] + v.parts, '/')], ':')
}

/// A fully-formed identifier: four mandatory components and the path
/// parts. Immutable once constructed.
#[derive(Debug, Clone, PartialEq, Eq)]
pub struct Arn {
    pub domain: Domain,
    pub category: Category,
    pub account: Account,
    pub root: Root,
    pub parts: Parts,
}

impl View for Arn {
    type V = ArnView;

    open spec fn view(&self) -> ArnView {
        ArnView {
            domain: self.domain@,
            category: self.category@,
            account: self.account@,
            root: self.root@,
            parts: self.parts@,
        }
    }
}

impl Arn {
    /// Assembles an identifier from already-constructed components;
    /// the builder and the parser both finish here.
    pub fn new(
        domain: Domain,
        category: Category,
        account: Account,
        root: Root,
        parts: Parts,
    ) -> (r: Arn)
        ensures
            r@ == (ArnView {
                domain: domain@,
                category: category@,
                account: account@,
                root: root@,
                parts: parts@,
            }),
    {
        Arn { domain, category, account, root, parts }
    }

    /// The canonical text of this identifier.
    pub fn to_string(&self) -> (r: String)
        ensures
            r@ == arn_text(self@),
    {
        let mut out = String::from_str("arn");
        out.append(":");
        out.append(self.domain.as_str());
        out.append(":");
        out.append(self.category.as_str());
        out.append(":");
        out.append(self.account.as_str());
        out.append(":");
        out.append(self.root.as_str());
        let ghost head = "arn"@ + seq![':'] + self@.domain + seq![':'] + self@.category
            + seq![':'] + self@.account + seq![':'] + self@.root;
        proof {
            reveal_strlit(":");
            assert(":"@ =~= seq![':']);
            assert(out@ =~= head);
        }
        if self.parts.len() > 0 {
            out.append("/");
            let tail = self.parts.to_string();
            out.append(tail.as_str());
            proof {
                reveal_strlit("/");
                assert("/"@ =~= seq!['/']);
            }
        }
        proof {
            lemma_join_cons(self@.root, self@.parts, '/');
            crate::text::lemma_join5(
                "arn"@,
                self@.domain,
                self@.category,
                self@.account,
                join(seq![self@.root] + self@.parts, '/'),
                ':',
            );
            assert(out@ =~= arn_text(self@));
        }
        out
    }
}

impl Default for Arn {
    /// The fallback identifier `arn:akton:system:default:root`; its
    /// construction never fails.
    fn default() -> (r: Arn)
        ensures
            r@ == (ArnView {
                domain: "akton"@,
                category: "system"@,
                account: "default"@,
                root: "root"@,
                parts: Seq::<Seq<char>>::empty(),
            }),
            r@.wf(),
    {
        proof {
            reveal_strlit("akton");
            reveal_strlit("system");
            reveal_strlit("default");
            reveal_strlit("root");
            assert(valid_seq("akton"@));
            assert(valid_seq("system"@));
            assert(valid_seq("default"@));
            assert(valid_seq("root"@));
        }
        let domain = Domain::new(String::from_str("akton")).unwrap();
        let category = Category::new(String::from_str("system")).unwrap();
        let account = Account::new(String::from_str("default")).unwrap();
        let root = Root::new(String::from_str("root")).unwrap();
        let items: Vec<Part> = Vec::new();
        proof {
            assert(items.deep_view() =~~= Seq::<Seq<char>>::empty());
        }
        let parts = Parts::new(items);
        Arn::new(domain, category, account, root, parts)
    }
}

} // verus!
