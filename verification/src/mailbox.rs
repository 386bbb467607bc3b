//! Recipient resolution: substituting an address template through a row and
//! parsing the result as an RFC-style mailbox.
use vstd::prelude::*;

use crate::config::Recipients;
use crate::error::DispatchError;
use crate::substitution::subst_spec;
use crate::substitution::substitute;
use crate::substitution::Substitutions;

verus! {

/// The canonical rendering of the mailbox that `s` parses to, or `None`
/// when `s` is not a well-formed mailbox.
pub uninterp spec fn mailbox_canon(s: Seq<char>) -> Option<Seq<char>>;

/// Relies on lettre's mailbox parser, `<Mailbox as FromStr>::from_str`: it
/// accepts `user@domain` or `Name <user@domain>` with an RFC-compatible
/// local part and domain and rejects malformed input; and on lettre's
/// `Display` rendering of the parsed mailbox. Both depend on the input text
/// alone; the diagnostic on failure is the parser's own.
#[verifier::external_body]
fn parse_mailbox(s: &str) -> (r: Result<String, String>)
    ensures
        r is Ok <==> mailbox_canon(s@) is Some,
        r is Ok ==> mailbox_canon(s@) == Some(r->Ok_0@),
{
    match s.parse::<lettre::message::Mailbox>() {
        Ok(mailbox) => Ok(mailbox.to_string()),
        Err(e) => Err(e.to_string()),
    }
}

/// A validated mailbox, held as its canonical `Name <user@domain>` or
/// `user@domain` rendering.
#[derive(Debug)]
pub struct Mailbox {
    rendered: String,
}

impl View for Mailbox {
    type V = Seq<char>;

    closed spec fn view(&self) -> Seq<char> {
        self.rendered@
    }
}

impl DeepView for Mailbox {
    type V = Seq<char>;

    open spec fn deep_view(&self) -> Seq<char> {
        self.view()
    }
}

impl Mailbox {
    /// The canonical rendering.
    pub fn rendered(&self) -> (r: &String)
        ensures
            r@ == self@,
    {
        &self.rendered
    }
}

/// What resolving one address template against a row yields: the canonical
/// mailbox of the substituted text when it parses, `None` otherwise.
pub open spec fn mailbox_spec(template: Seq<char>, row: Map<Seq<char>, Seq<char>>) -> Option<
    Seq<char>,
> {
    mailbox_canon(subst_spec(template, row))
}

/// Substitutes `address` through the row and parses the result as a single
/// mailbox. A parse failure names the raw template and the parser's
/// diagnostic.
pub fn mailbox_from_address(address: &str, substitutions: &Substitutions) -> (r: Result<
    Mailbox,
    DispatchError,
>)
    ensures
        r is Ok <==> mailbox_spec(address@, substitutions@) is Some,
        r is Ok ==> Some(r->Ok_0@) == mailbox_spec(address@, substitutions@),
        r is Err ==> (r->Err_0 matches DispatchError::Address { template, .. } && template@
            == address@),
{
    let substituted = substitute(address, substitutions);
    match parse_mailbox(substituted.as_str()) {
        Ok(rendered) => Ok(Mailbox { rendered }),
        Err(detail) => Err(
            DispatchError::Address { template: String::from_str(address), detail },
        ),
    }
}

/// What resolving an ordered list of address templates yields: every
/// canonical mailbox in order, or the first template whose substituted text
/// does not parse.
pub open spec fn resolve_list_spec(addrs: Seq<Seq<char>>, row: Map<Seq<char>, Seq<char>>) -> Result<
    Seq<Seq<char>>,
    Seq<char>,
>
    decreases addrs.len(),
{
    if addrs.len() == 0 {
        Ok(Seq::empty())
    } else {
        match mailbox_spec(addrs[0], row) {
            Option::None => Err(addrs[0]),
            Option::Some(c) => match resolve_list_spec(addrs.skip(1), row) {
                Ok(rest) => Ok(seq![c] + rest),
                Err(t) => Err(t),
            },
        }
    }
}

/// What resolving a recipient class yields: no mailboxes when the class is
/// absent, one for `Individual`, one per entry in order for `Multiple`.
pub open spec fn resolve_spec(
    recipients: &Option<Recipients>,
    row: Map<Seq<char>, Seq<char>>,
) -> Result<Seq<Seq<char>>, Seq<char>> {
    match recipients {
        Option::None => Ok(Seq::empty()),
        Option::Some(Recipients::Individual(a)) => match mailbox_spec(a@, row) {
            Option::Some(c) => Ok(seq![c]),
            Option::None => Err(a@),
        },
        Option::Some(Recipients::Multiple(v)) => resolve_list_spec(v.deep_view(), row),
    }
}

proof fn lemma_resolve_list_ok(addrs: Seq<Seq<char>>, row: Map<Seq<char>, Seq<char>>)
    requires
        forall|m: int| 0 <= m < addrs.len() ==> mailbox_spec(addrs[m], row) is Some,
    ensures
        resolve_list_spec(addrs, row) is Ok,
        resolve_list_spec(addrs, row)->Ok_0 == Seq::new(
            addrs.len(),
            |m: int| mailbox_spec(addrs[m], row)->0,
        ),
    decreases addrs.len(),
{
    if addrs.len() > 0 {
        let rest = addrs.skip(1);
        assert(forall|m: int| 0 <= m < rest.len() ==> rest[m] == addrs[m + 1]);
        lemma_resolve_list_ok(rest, row);
        assert(seq![mailbox_spec(addrs[0], row)->0] + Seq::new(
            rest.len(),
            |m: int| mailbox_spec(rest[m], row)->0,
        ) =~= Seq::new(addrs.len(), |m: int| mailbox_spec(addrs[m], row)->0));
    } else {
        assert(resolve_list_spec(addrs, row)->Ok_0 =~= Seq::new(
            addrs.len(),
            |m: int| mailbox_spec(addrs[m], row)->0,
        ));
    }
}

proof fn lemma_resolve_list_err(addrs: Seq<Seq<char>>, row: Map<Seq<char>, Seq<char>>, k: int)
    requires
        0 <= k < addrs.len(),
        forall|m: int| 0 <= m < k ==> mailbox_spec(addrs[m], row) is Some,
        mailbox_spec(addrs[k], row) is None,
    ensures
        resolve_list_spec(addrs, row) == Err::<Seq<Seq<char>>, Seq<char>>(addrs[k]),
    decreases k,
{
    if k > 0 {
        let rest = addrs.skip(1);
        assert(forall|m: int| 0 <= m < rest.len() ==> rest[m] == addrs[m + 1]);
        lemma_resolve_list_err(rest, row, k - 1);
    }
}

/// Resolves a recipient class against a row: `None` yields no mailboxes;
/// `Individual` yields one; `Multiple` yields one per entry, in order, and
/// fails on the first entry whose substituted text does not parse.
pub fn mailboxes_from_recipients(
    recipients: &Option<Recipients>,
    substitutions: &Substitutions,
) -> (r: Result<Vec<Mailbox>, DispatchError>)
    ensures
        r is Ok <==> resolve_spec(recipients, substitutions@) is Ok,
        r is Ok ==> r->Ok_0.deep_view() == resolve_spec(recipients, substitutions@)->Ok_0,
        r is Err ==> (r->Err_0 matches DispatchError::Address { template, .. } && resolve_spec(
            recipients,
            substitutions@,
        ) == Err::<Seq<Seq<char>>, Seq<char>>(template@)),
{
    let ghost row = substitutions@;
    match recipients {
        Option::None => {
            let empty: Vec<Mailbox> = Vec::new();
            proof {
                assert(empty.deep_view() =~= Seq::<Seq<char>>::empty());
            }
            Ok(empty)
        },
        Option::Some(Recipients::Individual(address)) => {
            let mailbox = mailbox_from_address(address.as_str(), substitutions)?;
            let mut mailboxes: Vec<Mailbox> = Vec::new();
            mailboxes.push(mailbox);
            proof {
                assert(mailboxes.deep_view() =~= resolve_spec(recipients, row)->Ok_0);
            }
            Ok(mailboxes)
        },
        Option::Some(Recipients::Multiple(list)) => {
            let ghost addrs = list.deep_view();
            let mut mailboxes: Vec<Mailbox> = Vec::new();
            let n = list.len();
            let mut idx: usize = 0;
            while idx < n
                invariant
                    row == substitutions@,
                    addrs == list.deep_view(),
                    resolve_spec(recipients, row) == resolve_list_spec(addrs, row),
                    n == list.len(),
                    addrs.len() == n,
                    idx <= n,
                    mailboxes.deep_view().len() == idx,
                    forall|m: int| 0 <= m < idx ==> mailbox_spec(addrs[m], row) is Some,
                    forall|m: int|
                        0 <= m < idx ==> Some(mailboxes.deep_view()[m]) == mailbox_spec(
                            addrs[m],
                            row,
                        ),
                decreases n - idx,
            {
                match mailbox_from_address(list[idx].as_str(), substitutions) {
                    Ok(mailbox) => {
                        mailboxes.push(mailbox);
                    },
                    Err(e) => {
                        proof {
                            assert(addrs[idx as int] == list@[idx as int]@);
                            lemma_resolve_list_err(addrs, row, idx as int);
                        }
                        return Err(e);
                    },
                }
                idx = idx + 1;
            }
            proof {
                lemma_resolve_list_ok(addrs, row);
                assert(mailboxes.deep_view() =~= Seq::new(
                    addrs.len(),
                    |m: int| mailbox_spec(addrs[m], row)->0,
                ));
            }
            Ok(mailboxes)
        },
    }
}

} // verus!
