//! The migrations of the service's own tables: forward only, each applied once,
//! under a lock that keeps other instances out.

use vstd::prelude::*;

use crate::text::{self, split_once, trim};

verus! {

/// The versions of the migrations, in the order in which they are applied.
pub open spec fn version_texts() -> Seq<Seq<char>> {
    seq!["0001"@, "0002"@, "0003"@, "0004"@, "0005"@, "0006"@, "0007"@]
}

/// The versions of the migrations, in the order in which they are applied.
pub fn versions() -> (versions: Vec<&'static str>)
    ensures
        versions.deep_view() == version_texts(),
{
    let versions: Vec<&'static str> = vec!["0001", "0002", "0003", "0004", "0005", "0006", "0007"];
    assert(versions.deep_view() =~= version_texts());
    versions
}

/// The pieces of a text between its semicolons.
pub open spec fn pieces(sql: Seq<char>) -> Seq<Seq<char>>
    decreases sql.len(),
{
    if sql.len() == 0 {
        seq![Seq::empty()]
    } else {
        let earlier = pieces(sql.drop_last());
        if sql.last() == ';' {
            earlier.push(Seq::empty())
        } else {
            earlier.drop_last().push(earlier.last().push(sql.last()))
        }
    }
}

/// The pieces that are not blank, trimmed.
pub open spec fn trimmed_pieces(pieces: Seq<Seq<char>>) -> Seq<Seq<char>> {
    pieces.map_values(|piece: Seq<char>| text::trimmed(piece)).filter(
        |statement: Seq<char>| statement.len() > 0,
    )
}

/// The statements of a migration: what stands between its semicolons, trimmed, but
/// for what is blank.
pub open spec fn statements(sql: Seq<char>) -> Seq<Seq<char>> {
    trimmed_pieces(pieces(sql))
}

proof fn lemma_no_semicolon_one_piece(sql: Seq<char>)
    requires
        !sql.contains(';'),
    ensures
        pieces(sql) == seq![sql],
    decreases sql.len(),
{
    if sql.len() > 0 {
        assert(sql.last() == sql[sql.len() - 1]);
        assert forall|i: int| 0 <= i < sql.drop_last().len() implies sql.drop_last()[i] != ';' by {
            assert(sql[i] != ';');
        }
        lemma_no_semicolon_one_piece(sql.drop_last());
        assert(sql.drop_last().push(sql.last()) =~= sql);
        assert(pieces(sql) =~= seq![sql]);
    } else {
        assert(sql =~= Seq::empty());
    }
}

proof fn lemma_pieces_split(head: Seq<char>, tail: Seq<char>)
    requires
        !head.contains(';'),
    ensures
        pieces(head + seq![';'] + tail) == seq![head] + pieces(tail),
        pieces(tail).len() > 0,
    decreases tail.len(),
{
    let whole = head + seq![';'] + tail;
    if tail.len() == 0 {
        lemma_no_semicolon_one_piece(head);
        assert(whole.drop_last() =~= head);
        assert(pieces(whole) =~= seq![head] + pieces(tail));
    } else {
        lemma_pieces_split(head, tail.drop_last());
        assert(whole.drop_last() =~= head + seq![';'] + tail.drop_last());
        assert(pieces(whole) =~= seq![head] + pieces(tail));
    }
}

proof fn lemma_trimmed_push(earlier: Seq<Seq<char>>, piece: Seq<char>)
    ensures
        trimmed_pieces(earlier.push(piece)) == (if text::trimmed(piece).len() > 0 {
            trimmed_pieces(earlier).push(text::trimmed(piece))
        } else {
            trimmed_pieces(earlier)
        }),
{
    let trim = |piece: Seq<char>| text::trimmed(piece);
    let kept = |statement: Seq<char>| statement.len() > 0;
    let mapped = earlier.push(piece).map_values(trim);
    assert(mapped.drop_last() =~= earlier.map_values(trim));
    reveal(Seq::filter);
}

/// Takes the statements of a migration apart. They must hold no semicolon of their
/// own, as ordinary data definition does not.
pub fn split_statements(sql: &str) -> (list: Vec<String>)
    ensures
        list.deep_view() == statements(sql@),
{
    let mut list: Vec<String> = Vec::new();
    let mut rest: &str = sql;
    let ghost mut behind: Seq<Seq<char>> = Seq::empty();
    proof {
        assert(behind + pieces(rest@) =~= pieces(sql@));
        reveal(Seq::filter);
        assert(list.deep_view() =~= trimmed_pieces(behind));
    }
    loop
        invariant
            behind + pieces(rest@) == pieces(sql@),
            list.deep_view() == trimmed_pieces(behind),
        ensures
            behind + pieces(rest@) == pieces(sql@),
            list.deep_view() == trimmed_pieces(behind),
            !rest@.contains(';'),
        decreases rest@.len(),
    {
        let parts = match split_once(rest, ';') {
            Some(parts) => parts,
            None => break,
        };
        let piece: &str = parts.0;
        let statement: &str = trim(piece);
        proof {
            lemma_pieces_split(piece@, parts.1@);
            lemma_trimmed_push(behind, piece@);
            assert(behind.push(piece@) + pieces(parts.1@) =~= behind + pieces(rest@));
        }
        let ghost before = list.deep_view();
        if !statement.is_empty() {
            list.push(statement.to_owned());
            assert(list.deep_view() =~= before.push(statement@));
        }
        proof {
            behind = behind.push(piece@);
        }
        rest = parts.1;
    }
    let statement: &str = trim(rest);
    proof {
        lemma_no_semicolon_one_piece(rest@);
        lemma_trimmed_push(behind, rest@);
        assert(behind.push(rest@) =~= pieces(sql@));
    }
    let ghost before = list.deep_view();
    if !statement.is_empty() {
        list.push(statement.to_owned());
        assert(list.deep_view() =~= before.push(statement@));
    }
    list
}

} // verus!
