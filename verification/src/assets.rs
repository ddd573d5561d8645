//! Decisions behind the launcher's asset commands: which background image
//! to use and which theme folders count as themes. The directory walking,
//! existence checks and copying are the caller's file-system collaborator;
//! the choices from their answers are made — and verified — here.

use vstd::prelude::*;
use crate::bytes::{append_to, copy_vec};

verus! {

/// Join two path components with a backslash, as the launcher stores its
/// Windows paths.
pub fn join_path(a: &Vec<u8>, b: &Vec<u8>) -> (r: Vec<u8>)
    ensures
        r@ == a@ + seq![92u8] + b@,
{
    let mut r = copy_vec(a);
    r.push(92);
    append_to(&mut r, b);
    proof {
        assert(r@ =~= a@ + seq![92u8] + b@);
    }
    r
}

/// Where the background image comes from.
#[derive(PartialEq, Eq, Structural, Debug)]
pub enum BgAction {
    /// The image is already in the local backgrounds folder: use it.
    UseLocal,
    /// Copy it from the game's backgrounds folder into the local one.
    CopyFromGame,
    /// Neither place has it: there is no background to show.
    Unavailable,
}

/// The choice: a locally cached image wins; otherwise the game's folder
/// must exist and hold the image, or there is nothing to show.
pub open spec fn spec_bg_action(
    local_exists: bool,
    game_dir_exists: bool,
    game_img_exists: bool,
) -> BgAction {
    if local_exists {
        BgAction::UseLocal
    } else if !game_dir_exists || !game_img_exists {
        BgAction::Unavailable
    } else {
        BgAction::CopyFromGame
    }
}

/// Decide where the background image named by the API comes from, given
/// which of the places the file-system collaborator found it in.
pub fn bg_file_action(local_exists: bool, game_dir_exists: bool, game_img_exists: bool) -> (r:
    BgAction)
    ensures
        r == spec_bg_action(local_exists, game_dir_exists, game_img_exists),
{
    if local_exists {
        BgAction::UseLocal
    } else if !game_dir_exists || !game_img_exists {
        BgAction::Unavailable
    } else {
        BgAction::CopyFromGame
    }
}

/// One candidate theme folder, as the directory walk hands it over: the
/// folder's path, and the contents of its `index.json` when it has one.
pub struct ThemeEntry {
    pub path: Vec<u8>,
    pub index_json: Option<Vec<u8>>,
}

/// Ghost model of a candidate theme folder.
pub struct ThemeEntryModel {
    pub path: Seq<u8>,
    pub index_json: Option<Seq<u8>>,
}

impl View for ThemeEntry {
    type V = ThemeEntryModel;

    open spec fn view(&self) -> ThemeEntryModel {
        ThemeEntryModel {
            path: self.path@,
            index_json: match self.index_json {
                Some(j) => Some(j@),
                None => None,
            },
        }
    }
}

/// One theme of the theme list: its folder and its `index.json` contents.
pub struct Theme {
    pub path: Vec<u8>,
    pub json: Vec<u8>,
}

/// Ghost model of a theme.
pub struct ThemeModel {
    pub path: Seq<u8>,
    pub json: Seq<u8>,
}

impl View for Theme {
    type V = ThemeModel;

    open spec fn view(&self) -> ThemeModel {
        ThemeModel { path: self.path@, json: self.json@ }
    }
}

/// The views of a list of candidate folders.
pub open spec fn entries_view(s: Seq<ThemeEntry>) -> Seq<ThemeEntryModel> {
    s.map_values(|e: ThemeEntry| e@)
}

/// The views of a theme list.
pub open spec fn themes_view(s: Seq<Theme>) -> Seq<ThemeModel> {
    s.map_values(|t: Theme| t@)
}

/// The themes among the candidates, in walk order: every folder with an
/// `index.json`, and nothing else.
pub open spec fn spec_collect_themes(entries: Seq<ThemeEntryModel>) -> Seq<ThemeModel>
    decreases entries.len(),
{
    if entries.len() == 0 {
        Seq::empty()
    } else {
        spec_collect_themes(entries.drop_last()) + (match entries.last().index_json {
            Some(j) => seq![ThemeModel { path: entries.last().path, json: j }],
            None => Seq::empty(),
        })
    }
}

/// Build the theme list from the walked candidate folders: each folder
/// with an `index.json` becomes a theme, in walk order.
pub fn collect_themes(entries: &Vec<ThemeEntry>) -> (r: Vec<Theme>)
    ensures
        themes_view(r@) == spec_collect_themes(entries_view(entries@)),
{
    let mut out: Vec<Theme> = Vec::new();
    let mut i: usize = 0;
    while i < entries.len()
        invariant
            i <= entries@.len(),
            themes_view(out@) == spec_collect_themes(entries_view(entries@).take(i as int)),
        decreases entries@.len() - i,
    {
        let e = &entries[i];
        match &e.index_json {
            Some(j) => {
                out.push(Theme { path: copy_vec(&e.path), json: copy_vec(j) });
            },
            None => {},
        }
        proof {
            let evs = entries_view(entries@);
            assert(evs.take((i + 1) as int).drop_last() =~= evs.take(i as int));
            assert(evs.take((i + 1) as int).last() == evs[i as int]);
            assert(evs[i as int] == entries@[i as int]@);
            assert(themes_view(out@) =~= spec_collect_themes(evs.take((i + 1) as int)));
        }
        i = i + 1;
    }
    proof {
        assert(entries_view(entries@).take(entries@.len() as int) =~= entries_view(entries@));
    }
    out
}

} // verus!
