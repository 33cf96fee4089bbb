//! Where the icon of an application is looked for.

use vstd::prelude::*;

use crate::config::overrides::{lower_unicode, text_entries, text_entry, text_len, unicode_lower};
use crate::icon_cache::SourceStamp;
use crate::text::{
    chars_of, contains_text, has_text, is_text, joined, pair_pieces, push_chars, same_str,
    split_pair, string_of, texts,
};

verus! {

/// A place where an icon is looked for.
#[derive(Debug, Clone, Copy, PartialEq, Eq, Structural)]
pub enum IconSource {
    /// The file that the configuration names.
    Override,
    /// The logo of the package of a store application.
    Package,
    /// The shortcut of a web application.
    Shortcut,
    /// The picture of a browser profile.
    Profile,
    /// The logo beside the executable.
    ExecutableLogo,
    /// The executable itself.
    Executable,
    /// The window.
    Window,
}

/// The parts of a group name, which stand between doubled colons.
pub open spec fn parts_of(group: Seq<char>) -> Seq<Seq<char>> {
    pair_pieces(group, ':')
}

/// The places for a group, in the order in which they are tried.
pub open spec fn sources_of(group: Seq<char>, overridden: bool) -> Seq<IconSource> {
    let parts = parts_of(group);
    (if overridden {
        seq![IconSource::Override]
    } else {
        seq![]
    }) + (if parts.len() == 3 {
        if parts[1] == "appx"@ {
            seq![IconSource::Package]
        } else {
            seq![IconSource::Shortcut]
        }
    } else if parts.len() == 2 {
        seq![IconSource::Profile]
    } else {
        seq![]
    }) + seq![IconSource::ExecutableLogo, IconSource::Executable, IconSource::Window]
}

/// The parts of a group name: the executable, the profile or `appx`, and the application.
pub fn group_parts(group: &str) -> (r: Vec<String>)
    ensures
        crate::text::strings(r@) == parts_of(group@),
        r@.len() > 0,
{
    let chars = chars_of(group);
    let parts = split_pair(chars.as_slice(), ':');
    let ghost all = parts_of(group@);
    let mut r: Vec<String> = Vec::new();
    for i in 0..parts.len()
        invariant
            texts(parts@) == all,
            crate::text::strings(r@) == all.take(i as int),
    {
        let ghost before = crate::text::strings(r@);
        r.push(string_of(parts[i].as_slice()));
        assert(texts(parts@)[i as int] == parts@[i as int]@);
        assert(crate::text::strings(r@) =~= before.push(all[i as int]));
        assert(all.take(i + 1) =~= all.take(i as int).push(all[i as int]));
    }
    assert(all.take(all.len() as int) =~= all);
    assert(crate::text::strings(r@).len() == r@.len());
    r
}

/// The places for a group, in the order in which they are tried.
pub fn icon_sources(group: &str, overridden: bool) -> (r: Vec<IconSource>)
    ensures
        r@ == sources_of(group@, overridden),
{
    let chars = chars_of(group);
    let parts = split_pair(chars.as_slice(), ':');
    assert(texts(parts@) == parts_of(group@));
    let mut r: Vec<IconSource> = Vec::new();
    if overridden {
        r.push(IconSource::Override);
    }
    if parts.len() == 3 {
        assert(parts_of(group@)[1] == parts@[1]@);
        if is_text(parts[1].as_slice(), "appx") {
            r.push(IconSource::Package);
        } else {
            r.push(IconSource::Shortcut);
        }
    } else if parts.len() == 2 {
        r.push(IconSource::Profile);
    }
    r.push(IconSource::ExecutableLogo);
    r.push(IconSource::Executable);
    r.push(IconSource::Window);
    assert(r@ =~= sources_of(group@, overridden));
    r
}

/// The first override from a place on whose pattern occurs in a name.
pub open spec fn first_override(
    entries: Seq<(Seq<char>, Seq<char>)>,
    name: Seq<char>,
    from: int,
) -> Option<Seq<char>>
    decreases entries.len() - from,
{
    if from < 0 || from >= entries.len() {
        None
    } else if has_text(name, entries[from].0) {
        Some(entries[from].1)
    } else {
        first_override(entries, name, from + 1)
    }
}

/// The icon file that the configuration names for a group: that of the first pattern that occurs
/// in the name of the group in lower case.
pub fn override_for(overrides: &indexmap::IndexMap<String, String>, group: &str) -> (r: Option<
    String,
>)
    ensures
        crate::config::parsers::optional_view(r) == first_override(
            text_entries(*overrides),
            unicode_lower(group@),
            0,
        ),
{
    let name = lower_unicode(group);
    let name = chars_of(name.as_str());
    let count = text_len(overrides);
    let ghost entries = text_entries(*overrides);
    let mut i: usize = 0;
    while i < count
        invariant
            i <= count,
            count == entries.len(),
            entries == text_entries(*overrides),
            name@ == unicode_lower(group@),
            first_override(entries, name@, 0) == first_override(entries, name@, i as int),
        decreases count - i,
    {
        if let Some((pattern, path)) = text_entry(overrides, i) {
            let chars = chars_of(pattern.as_str());
            if contains_text(name.as_slice(), chars.as_slice()) {
                return Some(path.clone());
            }
        }
        i = i + 1;
    }
    None
}

/// How a path begins.
#[derive(Debug, Clone, Copy, PartialEq, Eq, Structural)]
pub enum PathForm {
    /// With a volume of its own: `D:\app.ico`, and `D:app.ico` too.
    Whole,
    /// With a root and no volume: `\app.ico`.
    Rooted,
    /// With neither.
    Relative,
}

/// The path of the icon file of an override. One with a volume of its own stays as it is, one with
/// a root lies on the volume of the executable, and any other one below the folder of the
/// executable. There is none for a folder on a verbatim volume, below which paths are put in
/// normal form.
pub open spec fn override_place(
    folder: Seq<char>,
    volume: Seq<char>,
    verbatim: bool,
    path: Seq<char>,
    form: PathForm,
) -> Option<Seq<char>> {
    if form == PathForm::Whole {
        Some(path)
    } else if verbatim {
        None
    } else if form == PathForm::Rooted {
        Some(volume + path)
    } else if folder.len() == 0 || folder.last() == '\\' || folder.last() == '/' {
        Some(folder + path)
    } else if folder.len() == 2 && folder == volume {
        // Behind a bare drive, a path is relative to the current folder of the drive.
        Some(folder + path)
    } else {
        Some(folder.push('\\') + path)
    }
}

/// Finds the icon file of an override. The folder of the executable is empty where its path has
/// none.
pub fn override_path(
    folder: &str,
    volume: &str,
    verbatim: bool,
    path: &str,
    form: PathForm,
) -> (r: Option<String>)
    ensures
        crate::config::parsers::optional_view(r) == override_place(
            folder@,
            volume@,
            verbatim,
            path@,
            form,
        ),
{
    if form == PathForm::Whole {
        return Some(path.to_owned());
    }
    if verbatim {
        return None;
    }
    if form == PathForm::Rooted {
        return Some(joined(volume, path));
    }
    let mut whole = chars_of(folder);
    let count: usize = whole.len();
    let bare = count == 2 && same_str(folder, volume);
    if count > 0 && whole[count - 1] != '\\' && whole[count - 1] != '/' && !bare {
        whole.push('\\');
    }
    let path = chars_of(path);
    push_chars(&mut whole, path.as_slice());
    Some(string_of(whole.as_slice()))
}

/// The search for an icon: the places to try, how many were tried, and the files that were looked
/// at, with their versions.
pub struct IconQuery {
    pub sources: Vec<IconSource>,
    pub tried: usize,
    pub stamps: Vec<SourceStamp>,
}

impl IconQuery {
    /// The invariant: no more places were tried than there are.
    pub open spec fn valid(self) -> bool {
        self.tried <= self.sources@.len()
    }

    /// Begins with the search for the icon of a group. The executable is the first file that is
    /// looked at, and the file of an override the second, whether or not it is tried in time.
    pub fn new(group: &str, executable: SourceStamp, overridden: Option<SourceStamp>) -> (r: Self)
        ensures
            r.valid(),
            r.sources@ == sources_of(group@, overridden is Some),
            r.tried == 0,
            r.stamps@ == (match overridden {
                Some(stamp) => seq![executable, stamp],
                None => seq![executable],
            }),
    {
        let mut stamps: Vec<SourceStamp> = Vec::new();
        let sources = icon_sources(group, overridden.is_some());
        stamps.push(executable);
        match overridden {
            Some(stamp) => {
                stamps.push(stamp);
                assert(stamps@ =~= seq![executable, stamp]);
            },
            None => {
                assert(stamps@ =~= seq![executable]);
            },
        }
        IconQuery { sources, tried: 0, stamps }
    }

    /// Takes note of a file before it is read, so that a later change of it is seen.
    pub fn note(&mut self, stamp: SourceStamp)
        requires
            old(self).valid(),
        ensures
            final(self).valid(),
            final(self).sources@ == old(self).sources@,
            final(self).tried == old(self).tried,
            final(self).stamps@ == old(self).stamps@.push(stamp),
    {
        self.stamps.push(stamp);
    }

    /// The next place to try, after the earlier ones gave nothing; none where the search is not
    /// wanted any more or every place was tried.
    pub fn next_source(&mut self, now: u64, deadline: u64, wanted: bool) -> (r: Option<IconSource>)
        requires
            old(self).valid(),
        ensures
            final(self).valid(),
            final(self).sources@ == old(self).sources@,
            final(self).stamps@ == old(self).stamps@,
            if now < deadline && wanted && old(self).tried < old(self).sources@.len() {
                &&& r == Some(old(self).sources@[old(self).tried as int])
                &&& final(self).tried == old(self).tried + 1
            } else {
                r is None && final(self).tried == old(self).tried
            },
    {
        if now >= deadline || !wanted || self.tried >= self.sources.len() {
            return None;
        }
        let source = self.sources[self.tried];
        self.tried = self.tried + 1;
        Some(source)
    }
}

/// Whether the result of a search is used: the search is still wanted and in time.
pub fn accepts_icon(now: u64, deadline: u64, wanted: bool) -> (r: bool)
    ensures
        r == (now < deadline && wanted),
{
    now < deadline && wanted
}

/// A point of the work on a request for an icon at which it is looked at whether the work is still
/// wanted.
#[derive(Debug, Clone, Copy, PartialEq, Eq, Structural)]
pub enum RequestPoint {
    /// Before anything is looked up.
    Begin,
    /// After the icon was looked for, before it is kept.
    Loaded,
    /// Before the name of the application is looked up.
    Naming,
    /// Before the result is handed over.
    Publish,
}

/// How the work on requests goes on.
#[derive(Debug, Clone, Copy, PartialEq, Eq, Structural)]
pub enum RequestStep {
    /// With the same request.
    Proceed,
    /// With the same request, but an icon that was loaded is not kept.
    Discard,
    /// With the next request.
    Skip,
    /// Not at all: newer requests have come.
    Stop,
}

/// How the work on requests goes on from a point.
pub open spec fn step_at(point: RequestPoint, wanted: bool, current: bool) -> RequestStep {
    match point {
        RequestPoint::Begin => if !wanted {
            RequestStep::Stop
        } else if !current {
            RequestStep::Skip
        } else {
            RequestStep::Proceed
        },
        RequestPoint::Loaded => if !wanted {
            RequestStep::Stop
        } else if !current {
            RequestStep::Discard
        } else {
            RequestStep::Proceed
        },
        RequestPoint::Naming => if !wanted {
            RequestStep::Stop
        } else {
            RequestStep::Proceed
        },
        RequestPoint::Publish => if !wanted || !current {
            RequestStep::Skip
        } else {
            RequestStep::Proceed
        },
    }
}

/// How the work on requests goes on: `wanted` says whether no newer requests have come, `current`
/// whether the window still is the one that was asked about.
pub fn request_step(point: RequestPoint, wanted: bool, current: bool) -> (r: RequestStep)
    ensures
        r == (match point {
            RequestPoint::Begin => if !wanted {
                RequestStep::Stop
            } else if !current {
                RequestStep::Skip
            } else {
                RequestStep::Proceed
            },
            RequestPoint::Loaded => if !wanted {
                RequestStep::Stop
            } else if !current {
                RequestStep::Discard
            } else {
                RequestStep::Proceed
            },
            RequestPoint::Naming => if !wanted {
                RequestStep::Stop
            } else {
                RequestStep::Proceed
            },
            RequestPoint::Publish => if !wanted || !current {
                RequestStep::Skip
            } else {
                RequestStep::Proceed
            },
        }),
        r == step_at(point, wanted, current),
{
    match point {
        RequestPoint::Publish => if wanted && current {
            RequestStep::Proceed
        } else {
            RequestStep::Skip
        },
        _ => if !wanted {
            RequestStep::Stop
        } else if current {
            RequestStep::Proceed
        } else {
            match point {
                RequestPoint::Begin => RequestStep::Skip,
                RequestPoint::Loaded => RequestStep::Discard,
                _ => RequestStep::Proceed,
            }
        },
    }
}

/// An override is tried before everything else, and the window is asked last.
pub proof fn override_first_window_last(group: Seq<char>, overridden: bool)
    ensures
        overridden ==> sources_of(group, overridden)[0] == IconSource::Override,
        sources_of(group, overridden).last() == IconSource::Window,
        !overridden ==> !sources_of(group, overridden).contains(IconSource::Override),
{
}

/// The places for a group: the file of the configuration where it names one; then what the name of
/// the group says, by the number of its parts; then the executable and the window.
pub proof fn places_for_a_group(group: Seq<char>, overridden: bool)
    ensures
        ({
            let parts = parts_of(group);
            let all = sources_of(group, overridden);
            let rest = sources_of(group, false);
            let last = seq![IconSource::ExecutableLogo, IconSource::Executable, IconSource::Window];
            &&& overridden ==> all == seq![IconSource::Override] + rest
            &&& !overridden ==> all == rest
            &&& parts.len() == 3 && parts[1] == seq!['a', 'p', 'p', 'x'] ==> rest == seq![
                IconSource::Package,
            ] + last
            &&& parts.len() == 3 && parts[1] != seq!['a', 'p', 'p', 'x'] ==> rest == seq![
                IconSource::Shortcut,
            ] + last
            &&& parts.len() == 2 ==> rest == seq![IconSource::Profile] + last
            &&& parts.len() != 2 && parts.len() != 3 ==> rest == last
        }),
{
    reveal_strlit("appx");
    assert("appx"@ =~= seq!['a', 'p', 'p', 'x']);
    let all = sources_of(group, overridden);
    let rest = sources_of(group, false);
    let last = seq![IconSource::ExecutableLogo, IconSource::Executable, IconSource::Window];
    assert(Seq::<IconSource>::empty() + last =~= last);
    if overridden {
        assert(all =~= seq![IconSource::Override] + rest);
    }
    let parts = parts_of(group);
    if parts.len() == 3 && parts[1] == "appx"@ {
        assert(rest =~= seq![IconSource::Package] + last);
    } else if parts.len() == 3 {
        assert(rest =~= seq![IconSource::Shortcut] + last);
    } else if parts.len() == 2 {
        assert(rest =~= seq![IconSource::Profile] + last);
    } else {
        assert(rest =~= last);
    }
}

/// The first override whose pattern occurs in a name gives the file; without one there is none.
pub proof fn first_pattern_that_occurs(
    entries: Seq<(Seq<char>, Seq<char>)>,
    name: Seq<char>,
    from: int,
)
    requires
        0 <= from,
    ensures
        match first_override(entries, name, from) {
            Some(path) => exists|i: int|
                {
                    &&& from <= i < entries.len()
                    &&& (#[trigger] entries[i]).1 == path
                    &&& has_text(name, entries[i].0)
                    &&& forall|k: int| from <= k < i ==> !has_text(name, (#[trigger] entries[k]).0)
                },
            None => forall|k: int|
                from <= k < entries.len() ==> !has_text(name, (#[trigger] entries[k]).0),
        },
    decreases entries.len() - from,
{
    if from < entries.len() {
        first_pattern_that_occurs(entries, name, from + 1);
        if has_text(name, entries[from].0) {
            assert(entries[from].1 == first_override(entries, name, from)->0);
        } else if first_override(entries, name, from) is Some {
            let path = first_override(entries, name, from)->0;
            let i = choose|i: int|
                {
                    &&& from + 1 <= i < entries.len()
                    &&& (#[trigger] entries[i]).1 == path
                    &&& has_text(name, entries[i].0)
                    &&& forall|k: int| from + 1 <= k < i ==> !has_text(name, (#[trigger] entries[k]).0)
                };
            assert(entries[i].1 == path);
        }
    }
}

/// A path with a volume of its own is taken as it is. Any other one is below the folder of the
/// executable, or on its volume where it has a root; there is none on a verbatim volume.
pub proof fn places_of_overrides(
    folder: Seq<char>,
    volume: Seq<char>,
    verbatim: bool,
    path: Seq<char>,
)
    ensures
        override_place(folder, volume, verbatim, path, PathForm::Whole) == Some(path),
        override_place(folder, volume, true, path, PathForm::Rooted) is None,
        override_place(folder, volume, true, path, PathForm::Relative) is None,
        override_place(folder, volume, false, path, PathForm::Rooted) == Some(volume + path),
        ({
            let place = override_place(folder, volume, false, path, PathForm::Relative);
            let closed = folder.len() == 0 || folder.last() == '\\' || folder.last() == '/';
            let bare = folder.len() == 2 && folder == volume;
            &&& closed || bare ==> place == Some(folder + path)
            &&& !closed && !bare ==> place == Some(folder + seq!['\\'] + path)
        }),
{
    assert(folder.push('\\') + path =~= folder + seq!['\\'] + path);
}

/// A request that is wanted, of a window that is still the same, goes on at every point. One that is
/// not wanted any more stops all work, but for a result that is ready, which is passed over. One
/// of another window is not begun, its icon is not kept, and its result is not handed over.
pub proof fn requests_go_on_while_they_are_wanted(point: RequestPoint, current: bool)
    ensures
        step_at(point, true, true) == RequestStep::Proceed,
        step_at(point, false, current) == RequestStep::Stop <==> point != RequestPoint::Publish,
        step_at(RequestPoint::Publish, false, current) == RequestStep::Skip,
        step_at(point, true, false) == RequestStep::Skip <==> point == RequestPoint::Begin || point
            == RequestPoint::Publish,
        step_at(point, true, false) == RequestStep::Discard <==> point == RequestPoint::Loaded,
        step_at(point, true, false) == RequestStep::Proceed <==> point == RequestPoint::Naming,
{
}

}
