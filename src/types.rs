use vstd::prelude::*;
use vstd::string::StrSliceExecFns;
use vstd::string::StringExecFns;

verus! {

/// Something that a menu can list: a podcast or an episode.
pub trait Menuable {
    /// The text shown for this item in a menu row of `length` characters.
    spec fn menu_title(&self, length: nat) -> Seq<char>;

    /// Renders the menu text of this item, cut to `length` characters.
    fn get_title(&self, length: usize) -> (r: String)
        ensures
            r@ == self.menu_title(length as nat),
    ;
}

/// A subscribed feed and its episodes. `any_unplayed` is derived: it is true
/// exactly when some episode has not been played (see `Podcast::wf`).
/// `last_checked` counts seconds since the Unix epoch, in UTC.
#[derive(Debug, Clone)]
pub struct Podcast {
    pub id: Option<i32>,
    pub title: String,
    pub url: String,
    pub description: Option<String>,
    pub author: Option<String>,
    pub explicit: Option<bool>,
    pub last_checked: i64,
    pub episodes: Vec<Episode>,
    pub any_unplayed: bool,
}

/// One episode of a podcast. `path` is the local file, present once the
/// episode has been downloaded; `pubdate` counts seconds since the Unix
/// epoch, in UTC; `duration` is in seconds.
#[derive(Debug, Clone)]
pub struct Episode {
    pub id: Option<i32>,
    pub title: String,
    pub url: String,
    pub description: String,
    pub pubdate: Option<i64>,
    pub duration: Option<i32>,
    pub path: Option<String>,
    pub played: bool,
}

/// Whether some episode of `eps` is still unplayed.
pub open spec fn some_unplayed(eps: Seq<Episode>) -> bool {
    exists|i: int| 0 <= i < eps.len() && !(#[trigger] eps[i]).played
}

impl Podcast {
    /// The derived flag agrees with the episodes.
    pub open spec fn wf(&self) -> bool {
        self.any_unplayed == some_unplayed(self.episodes@)
    }
}

/// Computes whether some episode of `eps` is still unplayed.
pub fn any_unplayed(eps: &Vec<Episode>) -> (r: bool)
    ensures
        r == some_unplayed(eps@),
{
    let mut i: usize = 0;
    while i < eps.len()
        invariant
            i <= eps@.len(),
            forall|j: int| 0 <= j < i ==> (#[trigger] eps@[j]).played,
        decreases eps@.len() - i,
    {
        if !eps[i].played {
            return true;
        }
        i = i + 1;
    }
    false
}

impl Menuable for Podcast {
    open spec fn menu_title(&self, length: nat) -> Seq<char> {
        take_chars(self.title@, 0, length)
    }

    fn get_title(&self, length: usize) -> (r: String) {
        String::from_str(self.title.as_str().substring(0, length))
    }
}

impl Menuable for Episode {
    /// A downloaded episode is marked `[D] ` in front of its title.
    open spec fn menu_title(&self, length: nat) -> Seq<char> {
        match self.path {
            Some(_) => take_chars("[D] "@ + self.title@, 0, length),
            None => take_chars(self.title@, 0, length),
        }
    }

    fn get_title(&self, length: usize) -> (r: String) {
        match self.path {
            Some(_) => {
                let mut label = String::from_str("[D] ");
                label.append(self.title.as_str());
                String::from_str(label.as_str().substring(0, length))
            },
            None => String::from_str(self.title.as_str().substring(0, length)),
        }
    }
}

/// The characters of `s` from position `start`, at most `len` of them; a
/// range that runs past the end is cut at the end.
pub open spec fn take_chars(s: Seq<char>, start: nat, len: nat) -> Seq<char> {
    let from = if start <= s.len() { start } else { s.len() };
    let to = if from + len <= s.len() { from + len } else { s.len() };
    s.subrange(from as int, to as int)
}

/// Character-wise slicing of text, which never splits a character.
pub trait StringUtils {
    /// The characters from position `start`, at most `len` of them.
    fn substring(&self, start: usize, len: usize) -> (r: &str)
        ensures
            r@ == take_chars(self.chars_view(), start as nat, len as nat),
    ;

    /// The characters from position `start` up to position `end` (exclusive),
    /// or to the end of the text where `end` is `None`.
    fn slice(&self, start: usize, end: Option<usize>) -> (r: &str)
        requires
            end matches Some(e) ==> start <= e,
        ensures
            r@ == match end {
                Some(e) => take_chars(self.chars_view(), start as nat, (e - start) as nat),
                None => take_chars(self.chars_view(), start as nat, self.chars_view().len()),
            },
    ;

    spec fn chars_view(&self) -> Seq<char>;
}

impl StringUtils for str {
    open spec fn chars_view(&self) -> Seq<char> {
        self@
    }

    fn substring(&self, start: usize, len: usize) -> (r: &str) {
        let n = self.unicode_len();
        let from: usize = if start <= n { start } else { n };
        let to: usize = if len <= n - from { from + len } else { n };
        self.substring_char(from, to)
    }

    fn slice(&self, start: usize, end: Option<usize>) -> (r: &str) {
        match end {
            Some(e) => self.substring(start, e - start),
            None => {
                let n = self.unicode_len();
                self.substring(start, n)
            },
        }
    }
}

} // verus!
