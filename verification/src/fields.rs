//! Splitting a feed line into its comma-separated fields.

use vstd::prelude::*;

verus! {

/// ASCII `,`.
pub const COMMA: u8 = 44;

/// Index of the first occurrence of `sep` in `s`, or `s.len()` when none
/// occurs.
pub open spec fn first_sep_index(s: Seq<u8>, sep: u8) -> int
    decreases s.len(),
{
    if s.len() == 0 {
        0
    } else if s[0] == sep {
        0
    } else {
        1 + first_sep_index(s.skip(1), sep)
    }
}

pub proof fn lemma_first_sep_index(s: Seq<u8>, sep: u8)
    ensures
        0 <= first_sep_index(s, sep) <= s.len(),
        first_sep_index(s, sep) < s.len() ==> s[first_sep_index(s, sep)] == sep,
        forall|j: int| 0 <= j < first_sep_index(s, sep) ==> s[j] != sep,
    decreases s.len(),
{
    if s.len() != 0 && s[0] != sep {
        lemma_first_sep_index(s.skip(1), sep);
        let i = first_sep_index(s, sep);
        assert(i == 1 + first_sep_index(s.skip(1), sep));
        if i < s.len() {
            assert(s.skip(1)[i - 1] == s[i]);
        }
        assert forall|j: int| 0 <= j < i implies s[j] != sep by {
            if j > 0 {
                assert(s.skip(1)[j - 1] == s[j]);
            }
        }
    }
}

/// The fields of `s` split on `sep`. Splitting always yields at least one
/// field; each separator ends the current field and starts the next.
pub open spec fn split_fields(s: Seq<u8>, sep: u8) -> Seq<Seq<u8>>
    decreases s.len(),
{
    if s.len() == 0 {
        seq![Seq::<u8>::empty()]
    } else if s[0] == sep {
        seq![Seq::<u8>::empty()] + split_fields(s.skip(1), sep)
    } else {
        let rest = split_fields(s.skip(1), sep);
        seq![seq![s[0]] + rest[0]] + rest.skip(1)
    }
}

pub proof fn lemma_split_fields_len(s: Seq<u8>, sep: u8)
    ensures
        split_fields(s, sep).len() >= 1,
    decreases s.len(),
{
    if s.len() != 0 {
        lemma_split_fields_len(s.skip(1), sep);
    }
}

/// `fs` with `p` prefixed onto its first field.
spec fn prepend_first(p: Seq<u8>, fs: Seq<Seq<u8>>) -> Seq<Seq<u8>>
    recommends
        fs.len() >= 1,
{
    seq![p + fs[0]] + fs.skip(1)
}

/// Splits one feed line into its comma-separated fields.
pub fn split_commas(line: &[u8]) -> (fields: Vec<Vec<u8>>)
    ensures
        fields@.map_values(|f: Vec<u8>| f@) == split_fields(line@, COMMA),
        fields@.len() >= 1,
{
    let ghost full = line@;
    let mut done: Vec<Vec<u8>> = Vec::new();
    let mut cur: Vec<u8> = Vec::new();
    let mut i: usize = 0;
    proof {
        lemma_split_fields_len(full, COMMA);
        assert(full.skip(0) =~= full);
        assert(split_fields(full, COMMA) =~~= done@.map_values(|f: Vec<u8>| f@) + prepend_first(
            cur@,
            split_fields(full.skip(0), COMMA),
        ));
    }
    while i < line.len()
        invariant
            0 <= i <= line.len(),
            full == line@,
            split_fields(full.skip(i as int), COMMA).len() >= 1,
            split_fields(full, COMMA) == done@.map_values(|f: Vec<u8>| f@) + prepend_first(
                cur@,
                split_fields(full.skip(i as int), COMMA),
            ),
        decreases line.len() - i,
    {
        let ghost rest = full.skip(i as int);
        let ghost rest1 = full.skip(i as int + 1);
        proof {
            assert(rest[0] == full[i as int]);
            assert(rest.skip(1) =~= rest1);
            lemma_split_fields_len(rest1, COMMA);
        }
        let c = line[i];
        if c == COMMA {
            let ghost old_done = done@;
            let ghost cur_snap = cur@;
            done.push(cur);
            cur = Vec::new();
            proof {
                let fm = |f: Vec<u8>| f@;
                assert(done@.map_values(fm) =~~= old_done.map_values(fm) + seq![cur_snap]);
                assert(split_fields(rest, COMMA) =~~= seq![Seq::<u8>::empty()] + split_fields(
                    rest1,
                    COMMA,
                ));
                assert(prepend_first(cur_snap, split_fields(rest, COMMA)) =~~= seq![cur_snap]
                    + prepend_first(cur@, split_fields(rest1, COMMA)));
                assert(split_fields(full, COMMA) =~~= done@.map_values(fm) + prepend_first(
                    cur@,
                    split_fields(rest1, COMMA),
                ));
            }
        } else {
            let ghost old_cur = cur@;
            cur.push(c);
            proof {
                let r1 = split_fields(rest1, COMMA);
                assert(cur@ =~= old_cur + seq![full[i as int]]);
                assert(split_fields(rest, COMMA) =~~= seq![seq![full[i as int]] + r1[0]] + r1.skip(
                    1,
                ));
                assert(prepend_first(old_cur, split_fields(rest, COMMA)) =~~= prepend_first(
                    cur@,
                    r1,
                ));
                assert(split_fields(full, COMMA) =~~= done@.map_values(|f: Vec<u8>| f@)
                    + prepend_first(cur@, r1));
            }
        }
        i += 1;
    }
    let ghost old_done = done@;
    let ghost cur_snap = cur@;
    done.push(cur);
    proof {
        let fm = |f: Vec<u8>| f@;
        assert(full.skip(i as int) =~= Seq::<u8>::empty());
        assert(prepend_first(cur_snap, split_fields(full.skip(i as int), COMMA)) =~~= seq![
            cur_snap,
        ]);
        assert(done@.map_values(fm) =~~= old_done.map_values(fm) + seq![cur_snap]);
        assert(done@.map_values(fm) =~~= split_fields(full, COMMA));
    }
    done
}

} // verus!
