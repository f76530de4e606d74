//! The page-navigation state machine of the paginated display.
//!
//! States are page indices `0 .. num_pages - 1`, starting at 0. Four control
//! identifiers move the state: `"<<"` to the first page, `"<"` one page back
//! (stopping at 0), `">"` one page forward (stopping at the last page), and
//! `">>"` to the last page. Any other identifier is ignored: no state change
//! and no re-render.

use crate::text::decimal_digits;
use crate::text::str_eq;
use crate::text::usize_to_string;
use vstd::prelude::*;

verus! {

/// The page count that the paginated display derives from the text length:
/// `text_len / page_size + 1`. This is an approximation decoupled from the
/// actual chunk count; page lookups wrap modulo the real chunk count (see
/// [`crate::chunks::PageGetter::get`]), so the two never have to agree.
pub fn page_count(text_len: usize, page_size: usize) -> (r: usize)
    requires
        page_size >= 1,
        text_len < usize::MAX,
    ensures
        r == text_len as int / page_size as int + 1,
        r >= 1,
{
    text_len / page_size + 1
}

/// The page that control `id` asks for from `current`, or `None` when `id`
/// is none of the four navigation controls.
pub open spec fn nav_target(current: int, num_pages: int, id: Seq<char>) -> Option<int> {
    if id == "<<"@ {
        Some(0int)
    } else if id == "<"@ {
        Some(
            if current <= 0 {
                0int
            } else {
                current - 1
            },
        )
    } else if id == ">"@ {
        Some(
            if current + 1 >= num_pages {
                num_pages - 1
            } else {
                current + 1
            },
        )
    } else if id == ">>"@ {
        Some(num_pages - 1)
    } else {
        None
    }
}

/// Applies one navigation control to the current page index. `None` means
/// the control is not a navigation control and is to be ignored without a
/// re-render; `Some` carries the page to re-render.
pub fn navigate(current: usize, num_pages: usize, control_id: &str) -> (r: Option<usize>)
    requires
        1 <= num_pages,
        current < num_pages,
    ensures
        match r {
            Some(p) => nav_target(current as int, num_pages as int, control_id@) == Some(p as int)
                && p < num_pages,
            None => nav_target(current as int, num_pages as int, control_id@) is None,
        },
{
    if str_eq(control_id, "<<") {
        Some(0)
    } else if str_eq(control_id, "<") {
        if current == 0 {
            Some(0)
        } else {
            Some(current - 1)
        }
    } else if str_eq(control_id, ">") {
        if current + 1 >= num_pages {
            Some(num_pages - 1)
        } else {
            Some(current + 1)
        }
    } else if str_eq(control_id, ">>") {
        Some(num_pages - 1)
    } else {
        None
    }
}

/// Law: the transitions are idempotent at the boundaries. However often `">"`
/// is applied at the last page, the index stays at `num_pages - 1`; however
/// often `"<"` is applied at page 0, the index stays at 0; and `"<<"` and
/// `">>"` land on states they map to themselves.
pub proof fn lemma_nav_idempotent_at_boundaries(num_pages: int)
    requires
        num_pages >= 1,
    ensures
        nav_target(num_pages - 1, num_pages, ">"@) == Some(num_pages - 1),
        nav_target(0, num_pages, "<"@) == Some(0int),
        nav_target(num_pages - 1, num_pages, ">>"@) == Some(num_pages - 1),
        nav_target(0, num_pages, "<<"@) == Some(0int),
{
    reveal_strlit("<<");
    reveal_strlit("<");
    reveal_strlit(">");
    reveal_strlit(">>");
    assert(">"@.len() == 1);
    assert("<"@.len() == 1);
    assert("<<"@.len() == 2);
    assert(">>"@.len() == 2);
    assert(">"@[0] == '>' && "<"@[0] == '<');
    assert(">>"@[0] == '>' && "<<"@[0] == '<');
    assert(">"@ != "<<"@);
    assert(">"@ != "<"@);
    assert(">>"@ != "<<"@);
    assert(">>"@ != "<"@);
    assert(">>"@ != ">"@);
    assert("<"@ != "<<"@);
}

/// The page index and page count of one paginated message, owned by its
/// control loop for the message's interactive lifetime.
pub struct PageState {
    /// The current 0-based page index.
    pub current: usize,
    /// The page count; at least 1.
    pub num_pages: usize,
}

impl PageState {
    /// Well-formedness: at least one page, and the index stays on a page.
    pub open spec fn wf(self) -> bool {
        1 <= self.num_pages && self.current < self.num_pages
    }

    /// The initial state: page 0.
    pub fn new(num_pages: usize) -> (r: Self)
        requires
            num_pages >= 1,
        ensures
            r.wf(),
            r.current == 0,
            r.num_pages == num_pages,
    {
        PageState { current: 0, num_pages }
    }

    /// Applies one navigation control. Returns whether the control was one of
    /// the four navigation controls (and so asks for a re-render); any other
    /// control leaves the state unchanged.
    pub fn apply(&mut self, control_id: &str) -> (changed: bool)
        requires
            old(self).wf(),
        ensures
            final (self).wf(),
            final (self).num_pages == old(self).num_pages,
            match nav_target(
                old(self).current as int,
                old(self).num_pages as int,
                control_id@,
            ) {
                Some(p) => changed && final (self).current == p,
                None => !changed && final (self).current == old(self).current,
            },
    {
        match navigate(self.current, self.num_pages, control_id) {
            Some(p) => {
                self.current = p;
                true
            },
            None => false,
        }
    }
}

/// The full text of one rendered page: the chunk in a code block with a
/// `Page x/y` footer (1-based).
pub open spec fn page_content_text(chunk: Seq<char>, page: int, num_pages: int) -> Seq<char> {
    "```\n"@ + chunk + "\nPage "@ + decimal_digits(page + 1) + "/"@ + decimal_digits(num_pages)
        + "\n```"@
}

/// Renders one page's message content: the chunk in a code block, with a
/// footer giving the 1-based page number against the page count.
pub fn render_page_content(chunk: &str, page: usize, num_pages: usize) -> (r: String)
    requires
        page < usize::MAX,
    ensures
        r@ == page_content_text(chunk@, page as int, num_pages as int),
{
    let mut out = String::from_str("```\n");
    out.append(chunk);
    out.append("\nPage ");
    let shown = usize_to_string(page + 1);
    out.append(shown.as_str());
    out.append("/");
    let total = usize_to_string(num_pages);
    out.append(total.as_str());
    out.append("\n```");
    proof {
        assert(out@ =~= page_content_text(chunk@, page as int, num_pages as int));
    }
    out
}

/// One navigation button: its control identifier (also its label) and
/// whether it is disabled at the current page.
pub struct NavButton {
    /// The control identifier, matched against incoming navigation events.
    pub id: String,
    /// Disabled when the move it asks for is not available.
    pub disabled: bool,
}

/// Builds the four navigation buttons for a page: `"<<"` and `"<"` are
/// disabled on the first page, `">"` and `">>"` on the last.
pub fn build_nav_btns(page: usize, num_pages: usize) -> (r: Vec<NavButton>)
    requires
        num_pages >= 1,
    ensures
        r@.len() == 4,
        r@[0].id@ == "<<"@ && r@[1].id@ == "<"@ && r@[2].id@ == ">"@ && r@[3].id@ == ">>"@,
        r@[0].disabled == (page < 1) && r@[1].disabled == (page < 1),
        r@[2].disabled == (page >= num_pages - 1) && r@[3].disabled == (page >= num_pages - 1),
{
    let cant_left = page < 1;
    let cant_right = page >= num_pages - 1;
    let mut r: Vec<NavButton> = Vec::new();
    r.push(NavButton { id: String::from_str("<<"), disabled: cant_left });
    r.push(NavButton { id: String::from_str("<"), disabled: cant_left });
    r.push(NavButton { id: String::from_str(">"), disabled: cant_right });
    r.push(NavButton { id: String::from_str(">>"), disabled: cant_right });
    r
}

} // verus!
