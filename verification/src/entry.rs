//! One filesystem entry of a listing: classification and rendering.

use vstd::prelude::*;
use vstd::string::StringExecFns;
use crate::paths::href_seq;
use crate::paths::href_of;
use crate::text::decimal_of;
use crate::text::u64_to_string;

verus! {

/// How an entry is displayed: either a plain file or a directory.
#[derive(Clone, Copy, Debug, PartialEq, Eq, Structural)]
pub enum EntryType {
    File,
    Directory,
}

/// The icon-class word for an entry type.
pub open spec fn label_of(t: EntryType) -> Seq<char> {
    match t {
        EntryType::File => "file"@,
        EntryType::Directory => "directory"@,
    }
}

/// Renders the icon-class word of an entry type.
pub fn type_label(t: EntryType) -> (r: &'static str)
    ensures
        r@ == label_of(t),
{
    match t {
        EntryType::File => "file",
        EntryType::Directory => "directory",
    }
}

/// One child of a listed directory, built afresh for each request.
/// `path` is the entry's location relative to the serving root; `size` and
/// `date` are only ever present on files.
#[derive(Debug)]
pub struct EntryDetail {
    pub name: String,
    pub path: Vec<String>,
    pub entry_type: EntryType,
    pub size: Option<u64>,
    pub date: Option<String>,
}

impl EntryDetail {
    /// Builds an entry from already-classified parts.
    pub fn new(
        name: String,
        path: Vec<String>,
        entry_type: EntryType,
        size: Option<u64>,
        date: Option<String>,
    ) -> (r: EntryDetail)
        ensures
            r == (EntryDetail { name, path, entry_type, size, date }),
    {
        EntryDetail { name, path, entry_type, size, date }
    }
}

/// Classifies a raw entry: a directory, or a symbolic link of any target,
/// displays as a directory; everything else is a file.
pub open spec fn classify_spec(is_dir: bool, is_symlink: bool) -> EntryType {
    if is_dir || is_symlink {
        EntryType::Directory
    } else {
        EntryType::File
    }
}

/// The entry built from raw filesystem facts: directories (and symbolic
/// links) never carry a size or a date; files keep whatever of the two was
/// readable.
pub open spec fn from_raw_spec(
    name: String,
    path: Vec<String>,
    is_dir: bool,
    is_symlink: bool,
    size: Option<u64>,
    date: Option<String>,
) -> EntryDetail {
    let t = classify_spec(is_dir, is_symlink);
    EntryDetail {
        name,
        path,
        entry_type: t,
        size: if t == EntryType::File {
            size
        } else {
            None
        },
        date: if t == EntryType::File {
            date
        } else {
            None
        },
    }
}

impl EntryDetail {
    /// Builds an entry from raw filesystem facts and an already-rendered
    /// modification time.
    pub fn from_raw(
        name: String,
        path: Vec<String>,
        is_dir: bool,
        is_symlink: bool,
        size: Option<u64>,
        date: Option<String>,
    ) -> (r: EntryDetail)
        ensures
            r == from_raw_spec(name, path, is_dir, is_symlink, size, date),
    {
        let t = if is_dir || is_symlink {
            EntryType::Directory
        } else {
            EntryType::File
        };
        let size = if is_dir || is_symlink {
            None
        } else {
            size
        };
        let date = if is_dir || is_symlink {
            None
        } else {
            date
        };
        EntryDetail { name, path, entry_type: t, size, date }
    }

    /// Builds an entry from raw filesystem facts and the raw modification
    /// instant (seconds and subsecond nanoseconds since the Unix epoch),
    /// rendering the instant as local time.  An unreadable or unrepresentable
    /// instant leaves the date absent, exactly as an unreadable size does;
    /// any `renderable_instant` is rendered.
    pub fn from_metadata(
        name: String,
        path: Vec<String>,
        is_dir: bool,
        is_symlink: bool,
        size: Option<u64>,
        modified: Option<(i64, u32)>,
    ) -> (r: EntryDetail)
        ensures
            exists|d: Option<String>|
                {
                    &&& (modified is None ==> d is None)
                    &&& (modified matches Some((s, ns)) && renderable_instant(s, ns) ==> d is Some)
                    &&& r == from_raw_spec(name, path, is_dir, is_symlink, size, d)
                },
    {
        let date: Option<String> = match modified {
            Option::None => Option::None,
            Option::Some((secs, nanos)) => format_local_time(secs, nanos),
        };
        let ghost d = date;
        let r = EntryDetail::from_raw(name, path, is_dir, is_symlink, size, date);
        proof {
            assert({
                &&& (modified is None ==> d is None)
                &&& (modified matches Some((s, ns)) && renderable_instant(s, ns) ==> d is Some)
                &&& r == from_raw_spec(name, path, is_dir, is_symlink, size, d)
            });
        }
        r
    }
}

/// Instants whose rendering is owed: comfortably inside the range that
/// chrono's `DateTime::from_timestamp` accepts (it reaches some 262,000
/// years either side of the common era; this bound stays about 253,000
/// years either side of the epoch), with a plain sub-second part.
pub open spec fn renderable_instant(secs: i64, nanos: u32) -> bool {
    &&& -8_000_000_000_000 <= secs <= 8_000_000_000_000
    &&& nanos < 1_000_000_000
}

/// Relies on chrono's `DateTime::from_timestamp` and the `Display` of
/// `DateTime<Local>`: renders a Unix instant as the local-time display
/// string, or yields nothing when the instant lies outside chrono's
/// representable range.  Every `renderable_instant` is inside that range,
/// and a sub-second part of two seconds or more is always refused.  The
/// text depends on the machine's time zone, so nothing is stated about it.
#[verifier::external_body]
fn format_local_time(secs: i64, nanos: u32) -> (r: Option<String>)
    ensures
        renderable_instant(secs, nanos) ==> r is Some,
        nanos >= 2_000_000_000 ==> r is None,
{
    chrono::DateTime::<chrono::Utc>::from_timestamp(secs, nanos).map(
        |t| chrono::DateTime::<chrono::Local>::from(t).to_string(),
    )
}

/// The text standing in the size column: the decimal byte count, or nothing.
pub open spec fn size_text(size: Option<u64>) -> Seq<char> {
    match size {
        Option::Some(n) => decimal_of(n as nat),
        Option::None => Seq::empty(),
    }
}

/// The text standing in the date column: the rendered time, or nothing.
pub open spec fn date_text(date: Option<String>) -> Seq<char> {
    match date {
        Option::Some(d) => d@,
        Option::None => Seq::empty(),
    }
}

/// The list-item fragment for one entry: a link to the entry's location with
/// an icon class keyed by its type, the display name, and the size and date
/// columns (each empty when absent).
pub open spec fn fragment_of(e: EntryDetail) -> Seq<char> {
    "<li><a href=\""@ + href_seq(e.path@) + "\" class=\"icon icon-"@ + label_of(e.entry_type)
        + "\" title=\""@ + e.name@ + "\"><span class=\"name\">"@ + e.name@
        + "</span><span class=\"size\">"@ + size_text(e.size) + "</span><span class=\"date\">"@
        + date_text(e.date) + "</span></a></li>"@
}

impl EntryDetail {
    /// Renders this entry to its list-item fragment.
    pub fn to_html(&self) -> (r: String)
        ensures
            r@ == fragment_of(*self),
    {
        let mut s = String::from_str("<li><a href=\"");
        let href = href_of(&self.path);
        s.append(href.as_str());
        s.append("\" class=\"icon icon-");
        s.append(type_label(self.entry_type));
        s.append("\" title=\"");
        s.append(self.name.as_str());
        s.append("\"><span class=\"name\">");
        s.append(self.name.as_str());
        s.append("</span><span class=\"size\">");
        match &self.size {
            Option::Some(n) => {
                let t = u64_to_string(*n);
                s.append(t.as_str());
            },
            Option::None => {},
        }
        s.append("</span><span class=\"date\">");
        match &self.date {
            Option::Some(d) => {
                s.append(d.as_str());
            },
            Option::None => {},
        }
        s.append("</span></a></li>");
        proof {
            assert(s@ =~= fragment_of(*self));
        }
        s
    }
}

/// A directory entry that is a symbolic link renders exactly as a directory
/// does, whatever its target really is: same directory icon class, no size,
/// no date.
pub proof fn lemma_symlink_renders_as_directory(
    name: String,
    path: Vec<String>,
    is_dir: bool,
    size: Option<u64>,
    date: Option<String>,
)
    ensures
        from_raw_spec(name, path, is_dir, true, size, date).entry_type == EntryType::Directory,
        fragment_of(from_raw_spec(name, path, is_dir, true, size, date)) == fragment_of(
            from_raw_spec(name, path, true, true, Option::None, Option::None),
        ),
{
}

} // verus!
