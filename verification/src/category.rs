//! The category reference table: id → category-label associations loaded
//! from the support list's text.

use vstd::prelude::*;
use crate::roms::CategoryTable;
use crate::text::{lines_of, lines_spec, split_char, split_spec, str_eq};

verus! {

/// The table denoted by a sequence of lines: lines are read up to the
/// `[VerAdded]` section marker, blank lines are skipped, and each remaining
/// line contributes its first two `=`-separated fields as key and label when
/// neither is empty. A repeated key keeps the value of its last line.
pub open spec fn category_lines_map(ls: Seq<Seq<char>>) -> Map<Seq<char>, Seq<char>>
    decreases ls.len(),
{
    if ls.len() == 0 {
        Map::empty()
    } else {
        let line = ls[0];
        if line == "[VerAdded]"@ {
            Map::empty()
        } else {
            let rest = category_lines_map(ls.drop_first());
            if line.len() == 0 {
                rest
            } else {
                let fields = split_spec(line, '=');
                let name = fields[0];
                let label = if fields.len() >= 2 {
                    fields[1]
                } else {
                    Seq::empty()
                };
                if name.len() == 0 || label.len() == 0 {
                    rest
                } else if rest.contains_key(name) {
                    rest
                } else {
                    rest.insert(name, label)
                }
            }
        }
    }
}

/// The category table read from the whole support file.
pub open spec fn spec_category_table(contents: Seq<char>) -> Map<Seq<char>, Seq<char>> {
    category_lines_map(lines_spec(contents))
}

/// Builds the category reference table from the support file's contents.
pub fn build_category_list(contents: &str) -> (r: CategoryTable)
    ensures
        r@ == spec_category_table(contents@),
{
    let all_lines = lines_of(contents);
    let ghost ls = lines_spec(contents@);
    let n = all_lines.len();
    let mut table = CategoryTable::new();
    let mut i: usize = 0;
    proof {
        assert(ls.skip(0) =~= ls);
        assert(Map::<Seq<char>, Seq<char>>::empty().union_prefer_right(category_lines_map(ls))
            =~= category_lines_map(ls));
    }
    while i < n
        invariant
            ls == lines_spec(contents@),
            n == all_lines@.len(),
            all_lines@.map_values(|t: String| t@) == ls,
            i <= n,
            category_lines_map(ls) == table@.union_prefer_right(
                category_lines_map(ls.skip(i as int)),
            ),
        decreases n - i,
    {
        proof {
            assert(ls.skip(i as int).drop_first() =~= ls.skip(i + 1));
            assert(ls.skip(i as int)[0] == ls[i as int]);
        }
        let line = &all_lines[i];
        if str_eq(line.as_str(), "[VerAdded]") {
            proof {
                assert(category_lines_map(ls.skip(i as int)) =~= Map::<Seq<char>, Seq<char>>::empty());
                assert(table@.union_prefer_right(category_lines_map(ls.skip(i as int))) =~= table@);
                assert(category_lines_map(ls) == table@);
            }
            return table;
        }
        if line.as_str().unicode_len() == 0 {
            i += 1;
            continue ;
        }
        let fields = split_char(line.as_str(), '=');
        let name = fields[0].clone();
        let label = if fields.len() >= 2 {
            fields[1].clone()
        } else {
            String::new()
        };
        proof {
            assert(name@ == split_spec(line@, '=')[0]);
            if fields@.len() >= 2 {
                assert(label@ == split_spec(line@, '=')[1]);
            }
        }
        if name.as_str().unicode_len() == 0 || label.as_str().unicode_len() == 0 {
            i += 1;
            continue ;
        }
        let ghost t0 = table@;
        let ghost rest_next = category_lines_map(ls.skip(i + 1));
        table.insert(name, label);
        proof {
            assert(t0.union_prefer_right(category_lines_map(ls.skip(i as int)))
                =~= table@.union_prefer_right(rest_next));
        }
        i += 1;
    }
    proof {
        assert(ls.skip(n as int) =~= Seq::<Seq<char>>::empty());
        assert(table@.union_prefer_right(category_lines_map(ls.skip(n as int))) =~= table@);
    }
    table
}

} // verus!
