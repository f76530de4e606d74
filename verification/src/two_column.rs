//! Aligned two-column rendering for command listings.
//!
//! Rows that carry a value take part in the alignment: every such label is
//! padded to the longest participating label plus three spaces before its
//! value. Rows without a value (headings) are emitted as they are, preceded
//! by a blank separator line when they are not first.

use crate::text::push_spaces;
use crate::text::spaces;
use vstd::prelude::*;

verus! {

/// An ordered list of rows: a label, and for rows that take part in the
/// alignment a value to place behind the padded label.
pub struct TwoColumnList(pub Vec<(String, Option<String>)>);

/// The view of one row.
pub open spec fn row_view(r: (String, Option<String>)) -> (Seq<char>, Option<Seq<char>>) {
    (
        r.0@,
        match r.1 {
            Some(d) => Some(d@),
            None => None,
        },
    )
}

/// Length of the longest label among rows that have a paired value.
pub open spec fn longest_label(rows: Seq<(Seq<char>, Option<Seq<char>>)>) -> int
    decreases rows.len(),
{
    if rows.len() == 0 {
        0
    } else {
        let rest = longest_label(rows.drop_last());
        if rows.last().1 is Some && rows.last().0.len() > rest {
            rows.last().0.len() as int
        } else {
            rest
        }
    }
}

/// One rendered line: a paired row is padded to `width + 3` before its value,
/// an unpaired row is emitted as-is; both end in a newline.
pub open spec fn line_of(row: (Seq<char>, Option<Seq<char>>), width: int) -> Seq<char> {
    match row.1 {
        Some(d) => row.0 + spaces(width - row.0.len() + 3) + d + seq!['\n'],
        None => row.0 + seq!['\n'],
    }
}

/// All rows rendered in order against column width `width`.
pub open spec fn rendered(rows: Seq<(Seq<char>, Option<Seq<char>>)>, width: int) -> Seq<char>
    decreases rows.len(),
{
    if rows.len() == 0 {
        Seq::empty()
    } else {
        rendered(rows.drop_last(), width) + line_of(rows.last(), width)
    }
}

/// The full two-column rendering: every paired label padded to the longest
/// paired label plus three spaces.
pub open spec fn two_column_string(rows: Seq<(Seq<char>, Option<Seq<char>>)>) -> Seq<char> {
    rendered(rows, longest_label(rows))
}

/// What a heading appends: a blank separator row when the list was not
/// empty, then the category label with a trailing colon, both unpaired.
pub open spec fn heading_rows(
    rows: Seq<(Seq<char>, Option<Seq<char>>)>,
    category: Seq<char>,
) -> Seq<(Seq<char>, Option<Seq<char>>)> {
    let with_sep = if rows.len() == 0 {
        rows
    } else {
        rows.push((Seq::empty(), None))
    };
    with_sep.push((category + ":"@, None))
}

/// No paired label is longer than `longest_label`.
pub proof fn lemma_longest_label_ge(rows: Seq<(Seq<char>, Option<Seq<char>>)>, k: int)
    requires
        0 <= k < rows.len(),
        rows[k].1 is Some,
    ensures
        rows[k].0.len() <= longest_label(rows),
    decreases rows.len(),
{
    if k < rows.len() - 1 {
        lemma_longest_label_ge(rows.drop_last(), k);
    }
}

impl TwoColumnList {
    /// The rows as mathematical values.
    pub open spec fn rows(self) -> Seq<(Seq<char>, Option<Seq<char>>)> {
        self.0@.map_values(|r: (String, Option<String>)| row_view(r))
    }

    /// Creates an empty list.
    pub fn new() -> (r: Self)
        ensures
            r.rows() == Seq::<(Seq<char>, Option<Seq<char>>)>::empty(),
    {
        let r = TwoColumnList(Vec::new());
        proof {
            assert(r.rows() =~= Seq::<(Seq<char>, Option<Seq<char>>)>::empty());
        }
        r
    }

    /// Adds a line that takes part in the column alignment.
    pub fn push_two_colums(&mut self, command: String, description: String)
        ensures
            final (self).rows() == old(self).rows().push((command@, Some(description@))),
    {
        let ghost oldrows = self.rows();
        let ghost cv = command@;
        let ghost dv = description@;
        self.0.push((command, Some(description)));
        proof {
            assert(self.rows() =~= oldrows.push((cv, Some(dv))));
        }
    }

    /// Adds a heading line that does not influence the column width, after a
    /// blank separator line when the list already holds rows.
    pub fn push_heading(&mut self, category: &str)
        ensures
            final (self).rows() == heading_rows(old(self).rows(), category@),
    {
        let ghost oldrows = self.rows();
        if self.0.len() != 0 {
            self.0.push((String::new(), None));
        }
        let labelled = String::from_str(category).concat(":");
        self.0.push((labelled, None));
        proof {
            assert(self.rows() =~= heading_rows(oldrows, category@));
        }
    }

    /// Renders the list into a single string with aligned values.
    pub fn into_string(self) -> (r: String)
        ensures
            r@ == two_column_string(self.rows()),
    {
        let ghost rows = self.rows();
        let n = self.0.len();
        let mut longest: usize = 0;
        let mut i: usize = 0;
        while i < n
            invariant
                n == self.0.len(),
                rows == self.rows(),
                0 <= i <= n,
                longest as int == longest_label(rows.take(i as int)),
            decreases n - i,
        {
            proof {
                assert(rows.take(i as int + 1).drop_last() =~= rows.take(i as int));
                assert(rows.take(i as int + 1).last() == rows[i as int]);
            }
            let pair = &self.0[i];
            if pair.1.is_some() {
                let l = pair.0.unicode_len();
                if l > longest {
                    longest = l;
                }
            }
            i += 1;
        }
        proof {
            assert(rows.take(n as int) =~= rows);
        }
        let mut text = String::new();
        let mut j: usize = 0;
        while j < n
            invariant
                n == self.0.len(),
                rows == self.rows(),
                0 <= j <= n,
                longest as int == longest_label(rows),
                text@ == rendered(rows.take(j as int), longest as int),
            decreases n - j,
        {
            proof {
                assert(rows.take(j as int + 1).drop_last() =~= rows.take(j as int));
                assert(rows.take(j as int + 1).last() == rows[j as int]);
                if rows[j as int].1 is Some {
                    lemma_longest_label_ge(rows, j as int);
                }
            }
            let ghost text0 = text@;
            let pair = &self.0[j];
            let label_len = pair.0.unicode_len();
            text.append(pair.0.as_str());
            match &pair.1 {
                Some(d) => {
                    push_spaces(&mut text, longest - label_len);
                    text.append("   ");
                    text.append(d.as_str());
                    text.append("\n");
                    proof {
                        reveal_strlit("   ");
                        reveal_strlit("\n");
                        assert("   "@ =~= spaces(3));
                        assert(spaces(longest as int - label_len as int) + spaces(3) =~= spaces(
                            longest as int - label_len as int + 3,
                        ));
                        assert(text@ =~= text0 + line_of(rows[j as int], longest as int));
                    }
                },
                None => {
                    text.append("\n");
                    proof {
                        reveal_strlit("\n");
                        assert(text@ =~= text0 + line_of(rows[j as int], longest as int));
                    }
                },
            }
            proof {
                assert(text@ =~= rendered(rows.take(j as int + 1), longest as int));
            }
            j += 1;
        }
        proof {
            assert(rows.take(n as int) =~= rows);
        }
        text
    }
}

/// Law: in a rendered line of a paired row, the label stands first, the
/// characters from the label end up to `width + 3` are spaces, the value
/// starts exactly at column `width + 3`, and the line ends in a newline.
pub proof fn lemma_two_column_alignment(row: (Seq<char>, Option<Seq<char>>), width: int)
    requires
        row.1 is Some,
        row.0.len() <= width,
    ensures
        line_of(row, width).len() == width + 3 + row.1.unwrap().len() + 1,
        line_of(row, width).subrange(0, row.0.len() as int) == row.0,
        forall|k: int| row.0.len() <= k < width + 3 ==> line_of(row, width)[k] == ' ',
        line_of(row, width).subrange(width + 3, width + 3 + row.1.unwrap().len()) == row.1.unwrap(),
        line_of(row, width).last() == '\n',
{
    let line = line_of(row, width);
    let d = row.1.unwrap();
    assert(line.subrange(0, row.0.len() as int) =~= row.0);
    assert(line.subrange(width + 3, width + 3 + d.len()) =~= d);
}

/// Law: an unpaired heading row is emitted without padding, as the label
/// followed by a newline alone.
pub proof fn lemma_heading_unpadded(row: (Seq<char>, Option<Seq<char>>), width: int)
    requires
        row.1 is None,
    ensures
        line_of(row, width) == row.0 + seq!['\n'],
{
}

} // verus!
