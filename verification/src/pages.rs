//! The pages that carry blanks, and what writing onto them means for the
//! document as a whole.

use vstd::prelude::*;
use crate::scan::Frame;
use crate::blank::{find_blank, is_blank_of, Span};

verus! {

/// The blanks to fill on one page, `B` being where a blank sits. `frame` is
/// set only for a page that was read by OCR, whose geometry was measured
/// upright rather than along the page's own axes.
pub struct Page<B, S> {
    pub index: usize,
    pub date: Option<B>,
    pub signature: Option<B>,
    pub frame: Option<Frame<S>>,
}

/// The rotation of the first page in `pages` that has a frame.
pub open spec fn first_frame_rotation<B, S>(pages: Seq<Page<B, S>>) -> Option<i32>
    decreases pages.len(),
{
    if pages.len() == 0 {
        None
    } else {
        match pages[0].frame {
            Some(frame) => Some(frame.rotation),
            None => first_frame_rotation(pages.skip(1)),
        }
    }
}

/// Nothing to fill: neither label has a blank anywhere in the document.
#[derive(Debug)]
pub struct NoBlank {
    pub date_label: String,
    pub signature_label: String,
}

/// The turn to give every page before saving: so that a scan is left the
/// right way up, all of it, that of the first page read by OCR, if any was.
/// A document without a single blank is refused rather than saved unchanged.
pub fn plan<B, S>(pages: &Vec<Page<B, S>>, date_label: &str, signature_label: &str) -> (r: Result<Option<i32>, NoBlank>)
    ensures
        match r {
            Ok(rotation) => pages@.len() > 0 && rotation == first_frame_rotation(pages@),
            Err(e) => pages@.len() == 0 && e.date_label@ == date_label@ && e.signature_label@ == signature_label@,
        },
{
    if pages.len() == 0 {
        return Err(NoBlank { date_label: date_label.to_string(), signature_label: signature_label.to_string() });
    }
    let mut i: usize = 0;
    assert(pages@.skip(0) =~= pages@);
    while i < pages.len()
        invariant
            pages@.len() > 0,
            i <= pages@.len(),
            first_frame_rotation(pages@) == first_frame_rotation(pages@.skip(i as int)),
        decreases pages@.len() - i,
    {
        assert(pages@.skip(i as int).skip(1) =~= pages@.skip(i + 1));
        assert(pages@.skip(i as int)[0] == pages@[i as int]);
        match &pages[i].frame {
            Some(frame) => return Ok(Some(frame.rotation)),
            None => {},
        }
        i += 1;
    }
    Ok(None)
}

/// The blanks of a page's text layer, or `None` if it has neither, in which
/// case there is nothing to fill on it.
pub fn text_blanks(text: &[char], date_label: &str, signature_label: &str) -> (r: Option<(Option<Span>, Option<Span>)>)
    ensures
        match r {
            Some((date, signature)) => {
                &&& date is Some || signature is Some
                &&& is_blank_of(text@, date_label@, date)
                &&& is_blank_of(text@, signature_label@, signature)
            },
            None => {
                &&& is_blank_of(text@, date_label@, None)
                &&& is_blank_of(text@, signature_label@, None)
            },
        },
{
    let date = find_blank(text, date_label);
    let signature = find_blank(text, signature_label);
    if date.is_none() && signature.is_none() {
        None
    } else {
        Some((date, signature))
    }
}

} // verus!
