//! What the tracker is started with: the default layout and the list of
//! tabbed applications, which comes as one comma-delimited text.

use vstd::prelude::*;
use crate::text::{optional_text, texts};

verus! {

/// The pieces of `s` between the occurrences of `separator`. There is one
/// piece more than there are separators; a piece may be empty.
pub open spec fn split_on(s: Seq<char>, separator: char) -> Seq<Seq<char>>
    decreases s.len(),
{
    if s.len() == 0 {
        seq![Seq::empty()]
    } else {
        let earlier = split_on(s.drop_last(), separator);
        if s.last() == separator {
            earlier.push(Seq::empty())
        } else {
            earlier.drop_last().push(earlier.last().push(s.last()))
        }
    }
}

/// The pieces put together again, with `separator` between neighbours.
pub open spec fn join_with(pieces: Seq<Seq<char>>, separator: char) -> Seq<char>
    decreases pieces.len(),
{
    if pieces.len() == 0 {
        Seq::empty()
    } else if pieces.len() == 1 {
        pieces[0]
    } else {
        join_with(pieces.drop_last(), separator).push(separator) + pieces.last()
    }
}

/// Splitting gives at least one piece, and no piece holds the separator.
pub proof fn lemma_split_pieces(s: Seq<char>, separator: char)
    ensures
        split_on(s, separator).len() >= 1,
        forall|i: int|
            0 <= i < split_on(s, separator).len() ==> !(#[trigger] split_on(s, separator)[i]).contains(
                separator,
            ),
    decreases s.len(),
{
    let pieces = split_on(s, separator);
    if s.len() == 0 {
        assert(pieces[0] =~= Seq::<char>::empty());
    } else {
        lemma_split_pieces(s.drop_last(), separator);
        let earlier = split_on(s.drop_last(), separator);
        assert forall|i: int| 0 <= i < pieces.len() implies !(#[trigger] pieces[i]).contains(
            separator,
        ) by {
            if i < pieces.len() - 1 {
                assert(pieces[i] == earlier[i]);
            } else if s.last() != separator {
                let grown = earlier.last().push(s.last());
                assert(pieces[i] == grown);
                assert(!earlier[earlier.len() - 1].contains(separator));
                if grown.contains(separator) {
                    let k = choose|k: int| 0 <= k < grown.len() && grown[k] == separator;
                    if k < earlier.last().len() {
                        assert(earlier.last()[k] == separator);
                    }
                }
            }
        }
    }
}

/// Joining the pieces of a text gives the text back.
pub proof fn lemma_split_join(s: Seq<char>, separator: char)
    ensures
        join_with(split_on(s, separator), separator) == s,
    decreases s.len(),
{
    let pieces = split_on(s, separator);
    if s.len() == 0 {
        assert(pieces[0] =~= s);
    } else {
        let before = s.drop_last();
        let earlier = split_on(before, separator);
        lemma_split_pieces(before, separator);
        lemma_split_join(before, separator);
        assert(s =~= before.push(s.last()));
        if s.last() == separator {
            assert(pieces.drop_last() =~= earlier);
            assert(join_with(pieces, separator) =~= before.push(separator));
        } else {
            let grown = earlier.last().push(s.last());
            assert(pieces.last() == grown);
            if earlier.len() == 1 {
                assert(pieces[0] == grown);
                assert(join_with(pieces, separator) =~= before.push(s.last()));
            } else {
                assert(pieces.drop_last() =~= earlier.drop_last());
                let head = join_with(earlier.drop_last(), separator).push(separator);
                assert(head + grown =~= (head + earlier.last()).push(s.last()));
                assert(join_with(pieces, separator) =~= before.push(s.last()));
            }
        }
    }
}

/// The application identifiers of a comma-delimited list.
pub fn split_app_ids(list: &str) -> (apps: Vec<String>)
    ensures
        texts(apps@) == split_on(list@, ','),
{
    let n = list.unicode_len();
    let mut apps: Vec<String> = Vec::new();
    let mut start: usize = 0;
    let mut i: usize = 0;
    proof {
        assert(list@.take(0) =~= Seq::<char>::empty());
        assert(texts(apps@).push(list@.subrange(0, 0)) =~= split_on(list@.take(0), ','));
    }
    while i < n
        invariant
            n == list@.len(),
            start <= i <= n,
            split_on(list@.take(i as int), ',') == texts(apps@).push(
                list@.subrange(start as int, i as int),
            ),
        decreases n - i,
    {
        let c = list.get_char(i);
        proof {
            let upto = list@.take(i + 1);
            assert(upto.drop_last() =~= list@.take(i as int));
            assert(upto.last() == c);
        }
        let ghost earlier = texts(apps@);
        let ghost current = list@.subrange(start as int, i as int);
        if c == ',' {
            let piece = list.substring_char(start, i);
            apps.push(String::from_str(piece));
            start = i + 1;
            proof {
                assert(texts(apps@) =~= earlier.push(current));
                assert(list@.subrange(start as int, i + 1) =~= Seq::<char>::empty());
            }
        } else {
            proof {
                assert(earlier.push(current).drop_last() =~= earlier);
                assert(current.push(c) =~= list@.subrange(start as int, i + 1));
            }
        }
        i += 1;
    }
    let ghost earlier = texts(apps@);
    let piece = list.substring_char(start, n);
    apps.push(String::from_str(piece));
    proof {
        assert(list@.take(n as int) =~= list@);
        assert(texts(apps@) =~= earlier.push(list@.subrange(start as int, n as int)));
    }
    apps
}

/// The tabbed applications that an optional comma-delimited list names:
/// none where no list is given.
pub open spec fn tabbed_list(list: Option<Seq<char>>) -> Seq<Seq<char>> {
    match list {
        Some(list) => split_on(list, ','),
        None => Seq::empty(),
    }
}

/// What to do once the options are read.
#[derive(Debug)]
pub enum Startup {
    /// Show the usage text and leave.
    Help,
    /// Track focus with these settings.
    Run {
        /// The name of the layout given to windows that have no entry.
        default_lang: Option<String>,
        /// The applications whose windows are keyed by title too.
        tabbed: Vec<String>,
    },
}

/// Decides what to do from the options given: a request for help wins over
/// everything else; otherwise the tracker runs with the default layout as
/// given and the applications that the list names.
pub fn startup(help: bool, default_lang: Option<String>, tabbed_apps: Option<String>) -> (decision:
    Startup)
    ensures
        match decision {
            Startup::Help => help,
            Startup::Run { default_lang: layout, tabbed } => {
                &&& !help
                &&& layout == default_lang
                &&& texts(tabbed@) == tabbed_list(optional_text(tabbed_apps))
            },
        },
{
    if help {
        return Startup::Help;
    }
    let tabbed = match &tabbed_apps {
        Some(list) => split_app_ids(list.as_str()),
        None => {
            let none: Vec<String> = Vec::new();
            assert(texts(none@) =~= Seq::<Seq<char>>::empty());
            none
        },
    };
    Startup::Run { default_lang, tabbed }
}

} // verus!
