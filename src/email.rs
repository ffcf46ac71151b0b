//! The e-mail that carries a notification.

use vstd::prelude::*;

use crate::text::{pieces_of, split_on, views};

verus! {

/// An e-mail to send: sender, recipients, subject, body and the path of an
/// image to attach.
#[derive(Debug)]
pub struct EmailMessage {
    pub from: String,
    pub to: Option<String>,
    pub cc: Option<String>,
    pub bcc: Vec<String>,
    pub subject: String,
    pub body: String,
    pub attachment: Option<String>,
}

/// The pieces that are not empty, in order.
pub open spec fn non_empty(pieces: Seq<Seq<char>>) -> Seq<Seq<char>>
    decreases pieces.len(),
{
    if pieces.len() == 0 {
        pieces
    } else if pieces.last().len() == 0 {
        non_empty(pieces.drop_last())
    } else {
        non_empty(pieces.drop_last()).push(pieces.last())
    }
}

/// The addresses of a `;`-separated list, empty entries left out.
pub open spec fn addresses_of(list: Seq<char>) -> Seq<Seq<char>> {
    non_empty(pieces_of(list, ';'))
}

/// The addresses of the `;`-separated list `list`, in order; empty entries
/// (an empty list, a trailing `;`) are left out.
pub fn addresses(list: &str) -> (r: Vec<String>)
    ensures
        views(r@) == addresses_of(list@),
{
    let pieces = split_on(list, ';');
    let mut out: Vec<String> = Vec::new();
    let mut i: usize = 0;
    while i < pieces.len()
        invariant
            i <= pieces@.len(),
            views(pieces@) == pieces_of(list@, ';'),
            views(out@) == non_empty(views(pieces@).subrange(0, i as int)),
        decreases pieces@.len() - i,
    {
        let ghost before = views(out@);
        assert(views(pieces@).subrange(0, i + 1).drop_last() =~= views(pieces@).subrange(0, i as int));
        assert(views(pieces@)[i as int] == pieces@[i as int]@);
        if !pieces[i].as_str().is_empty() {
            out.push(pieces[i].clone());
            assert(views(out@) =~= before.push(pieces@[i as int]@));
        }
        i = i + 1;
    }
    assert(views(pieces@).subrange(0, pieces@.len() as int) =~= views(pieces@));
    out
}

/// The subject of every alert.
pub open spec fn alert_subject() -> Seq<char> {
    "[Aγάπη σου ❤️] Exchange Rate Alert"@
}

impl EmailMessage {
    /// The alert that carries `body`, with the blind copies taken from the
    /// `;`-separated list `bcc_list`.
    pub fn alert(
        from: String,
        to: Option<String>,
        cc: Option<String>,
        bcc_list: &str,
        body: String,
        attachment: Option<String>,
    ) -> (r: EmailMessage)
        ensures
            r.from == from,
            r.to == to,
            r.cc == cc,
            views(r.bcc@) == addresses_of(bcc_list@),
            r.subject@ == alert_subject(),
            r.body == body,
            r.attachment == attachment,
    {
        EmailMessage {
            from,
            to,
            cc,
            bcc: addresses(bcc_list),
            subject: String::from_str("[Aγάπη σου ❤️] Exchange Rate Alert"),
            body,
            attachment,
        }
    }
}

} // verus!
