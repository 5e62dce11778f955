//! The key under which a window's layouts are cached.

use vstd::prelude::*;
use crate::decimal::{decimal, is_digit, lemma_decimal_injective, lemma_decimal_shape, signed_decimal};
use crate::text::{contains_text, optional_text, texts};

verus! {

/// Whether `app_id` names an application of the `tabbed` list.
pub open spec fn is_tabbed(app_id: Option<Seq<char>>, tabbed: Seq<Seq<char>>) -> bool {
    app_id is Some && tabbed.contains(app_id->0)
}

/// The key of a window: its id as decimal text, followed by its title where
/// the window belongs to a tabbed application and has a title.
pub open spec fn window_key(
    window_id: int,
    app_id: Option<Seq<char>>,
    window_name: Option<Seq<char>>,
    tabbed: Seq<Seq<char>>,
) -> Seq<char> {
    if is_tabbed(app_id, tabbed) && window_name is Some {
        decimal(window_id) + window_name->0
    } else {
        decimal(window_id)
    }
}

/// Derives the cache key of a window from its id, its application
/// identifier, its title and the list of tabbed applications.
pub fn derive_key(
    window_id: i64,
    app_id: &Option<String>,
    window_name: &Option<String>,
    tabbed_app_ids: &Vec<String>,
) -> (key: String)
    ensures
        key@ == window_key(
            window_id as int,
            optional_text(*app_id),
            optional_text(*window_name),
            texts(tabbed_app_ids@),
        ),
{
    let mut key = signed_decimal(window_id);
    match app_id {
        Some(app) => {
            if contains_text(tabbed_app_ids, app.as_str()) {
                match window_name {
                    Some(name) => {
                        key.append(name.as_str());
                    },
                    None => {},
                }
            }
        },
        None => {},
    }
    key
}

/// The title of a window as text: an absent title reads as the empty one.
pub open spec fn title_text(window_name: Option<Seq<char>>) -> Seq<char> {
    match window_name {
        Some(title) => title,
        None => Seq::empty(),
    }
}

/// The decimal text of `short_id` is a proper beginning of that of
/// `long_id`, and `short_title` is the rest of those digits followed by
/// `long_title`: the two windows then spell the same key.
pub open spec fn title_continues_id(
    short_id: int,
    short_title: Seq<char>,
    long_id: int,
    long_title: Seq<char>,
) -> bool {
    let short = decimal(short_id);
    let long = decimal(long_id);
    &&& short.len() < long.len()
    &&& long.take(short.len() as int) == short
    &&& short_title == long.skip(short.len() as int) + long_title
}

/// A window of no tabbed application is keyed by its id alone, whatever its
/// title.
pub proof fn lemma_plain_window_key(
    window_id: int,
    app_id: Option<Seq<char>>,
    window_name: Option<Seq<char>>,
    tabbed: Seq<Seq<char>>,
)
    requires
        !is_tabbed(app_id, tabbed),
    ensures
        window_key(window_id, app_id, window_name, tabbed) == decimal(window_id),
{
}

/// Windows of no tabbed application have the same key exactly when they
/// have the same id.
pub proof fn lemma_plain_window_keys_by_id(
    id_a: int,
    app_a: Option<Seq<char>>,
    name_a: Option<Seq<char>>,
    id_b: int,
    app_b: Option<Seq<char>>,
    name_b: Option<Seq<char>>,
    tabbed: Seq<Seq<char>>,
)
    requires
        !is_tabbed(app_a, tabbed),
        !is_tabbed(app_b, tabbed),
    ensures
        window_key(id_a, app_a, name_a, tabbed) == window_key(id_b, app_b, name_b, tabbed) <==> id_a
            == id_b,
{
    if decimal(id_a) == decimal(id_b) {
        lemma_decimal_injective(id_a, id_b);
    }
}

/// The key of a window of a tabbed application is its id followed by its title.
pub proof fn lemma_tabbed_window_key(
    window_id: int,
    app_id: Option<Seq<char>>,
    window_name: Option<Seq<char>>,
    tabbed: Seq<Seq<char>>,
)
    requires
        is_tabbed(app_id, tabbed),
    ensures
        window_key(window_id, app_id, window_name, tabbed) == decimal(window_id) + title_text(
            window_name,
        ),
{
    assert(decimal(window_id) + Seq::<char>::empty() =~= decimal(window_id));
}

/// Two windows of tabbed applications have the same key exactly when they
/// have the same id and the same title, unless the title of one continues
/// the digits of its id into the id of the other.
pub proof fn lemma_tabbed_window_keys(
    id_a: int,
    app_a: Option<Seq<char>>,
    name_a: Option<Seq<char>>,
    id_b: int,
    app_b: Option<Seq<char>>,
    name_b: Option<Seq<char>>,
    tabbed: Seq<Seq<char>>,
)
    requires
        is_tabbed(app_a, tabbed),
        is_tabbed(app_b, tabbed),
        !title_continues_id(id_a, title_text(name_a), id_b, title_text(name_b)),
        !title_continues_id(id_b, title_text(name_b), id_a, title_text(name_a)),
    ensures
        window_key(id_a, app_a, name_a, tabbed) == window_key(id_b, app_b, name_b, tabbed) <==> (
        id_a == id_b && title_text(name_a) == title_text(name_b)),
{
    lemma_tabbed_window_key(id_a, app_a, name_a, tabbed);
    lemma_tabbed_window_key(id_b, app_b, name_b, tabbed);
    let a = decimal(id_a);
    let b = decimal(id_b);
    let ta = title_text(name_a);
    let tb = title_text(name_b);
    if a + ta == b + tb {
        assert((a + ta).take(a.len() as int) =~= a);
        assert((b + tb).take(b.len() as int) =~= b);
        assert((a + ta).skip(a.len() as int) =~= ta);
        assert((b + tb).skip(b.len() as int) =~= tb);
        if a.len() < b.len() {
            assert((b + tb).take(a.len() as int) =~= b.take(a.len() as int));
            assert((b + tb).skip(a.len() as int) =~= b.skip(a.len() as int) + tb);
            assert(false);
        } else if b.len() < a.len() {
            assert((a + ta).take(b.len() as int) =~= a.take(b.len() as int));
            assert((a + ta).skip(b.len() as int) =~= a.skip(b.len() as int) + ta);
            assert(false);
        } else {
            lemma_decimal_injective(id_a, id_b);
        }
    }
}

/// While a window of a tabbed application keeps its id, its key changes
/// exactly when its title does.
pub proof fn lemma_tabbed_title_change(
    window_id: int,
    app_id: Option<Seq<char>>,
    name_before: Option<Seq<char>>,
    name_after: Option<Seq<char>>,
    tabbed: Seq<Seq<char>>,
)
    requires
        is_tabbed(app_id, tabbed),
    ensures
        window_key(window_id, app_id, name_before, tabbed) == window_key(
            window_id,
            app_id,
            name_after,
            tabbed,
        ) <==> title_text(name_before) == title_text(name_after),
{
    lemma_tabbed_window_keys(
        window_id,
        app_id,
        name_before,
        window_id,
        app_id,
        name_after,
        tabbed,
    );
}

/// Where the title of one window continues the digits of its id into the
/// id of another, the two have the same key though their ids differ.
pub proof fn lemma_title_continuing_id_collides(
    id_a: int,
    app_a: Option<Seq<char>>,
    name_a: Option<Seq<char>>,
    id_b: int,
    app_b: Option<Seq<char>>,
    name_b: Option<Seq<char>>,
    tabbed: Seq<Seq<char>>,
)
    requires
        is_tabbed(app_a, tabbed),
        is_tabbed(app_b, tabbed),
        title_continues_id(id_a, title_text(name_a), id_b, title_text(name_b)),
    ensures
        window_key(id_a, app_a, name_a, tabbed) == window_key(id_b, app_b, name_b, tabbed),
        id_a != id_b,
{
    lemma_tabbed_window_key(id_a, app_a, name_a, tabbed);
    lemma_tabbed_window_key(id_b, app_b, name_b, tabbed);
    let a = decimal(id_a);
    let b = decimal(id_b);
    let tb = title_text(name_b);
    assert(b =~= b.take(a.len() as int) + b.skip(a.len() as int));
    assert(a + (b.skip(a.len() as int) + tb) =~= (a + b.skip(a.len() as int)) + tb);
}

/// A title continues the digits of an id only if it begins with a digit.
pub proof fn lemma_continuing_title_begins_with_digit(
    short_id: int,
    short_title: Seq<char>,
    long_id: int,
    long_title: Seq<char>,
)
    requires
        title_continues_id(short_id, short_title, long_id, long_title),
    ensures
        short_title.len() > 0,
        is_digit(short_title[0]),
{
    lemma_decimal_shape(short_id);
    lemma_decimal_shape(long_id);
    let short = decimal(short_id);
    let long = decimal(long_id);
    assert(short_title[0] == long[short.len() as int]);
}

} // verus!
