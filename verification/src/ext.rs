//! "Extensions" for mgit: what is written when flame graphs are dumped at
//! exit.
use vstd::prelude::*;
use vstd::string::*;
use crate::text::{decimal, decimal_string, same_text};

verus! {

/// Default directory for the flame graphs.
pub const DEFAULT_FLAME_GRAPHS_PATH: &'static str = "./flame-graphs/";

/// Name of the environment variable that disables flame graphs.
pub const DISABLE_FLAME_GRAPHS_ENVVAR: &'static str = "MGIT_DISABLE_FLAME_GRAPHS";

/// Name of the index file of a run.
pub const FLAME_GRAPHS_INDEX_FILENAME: &'static str = "index.html";

/// Name of the environment variable that holds the directory for the flame
/// graphs.
pub const FLAME_GRAPHS_PATH_ENVVAR: &'static str = "MGIT_FLAME_GRAPHS_PATH";

/// Whether flame graphs are written, given the value of the variable that
/// disables them: they are where the variable is not set, or set to `no`.
pub open spec fn writes_graphs(disable: Option<Seq<char>>) -> bool {
    match disable {
        Some(value) => value == "no"@,
        None => true,
    }
}

/// Returns whether flame graphs are written, given the value of the
/// variable that disables them, if it is set.
pub fn enabled(disable: Option<&str>) -> (r: bool)
    ensures
        r == writes_graphs(crate::app::option_str_view(disable)),
{
    match disable {
        Some(value) => same_text(value, "no"),
        None => true,
    }
}

/// The name of the file for the graph of a thread: the name of the thread,
/// or its id where it has none, with the extension `html`.
pub open spec fn graph_file(name: Option<Seq<char>>, id: nat) -> Seq<char> {
    (match name {
        Some(name) => name,
        None => decimal(id),
    }) + ".html"@
}

/// Returns the name of the file for the graph of a thread.
pub fn graph_file_name(name: Option<&str>, id: usize) -> (r: String)
    ensures
        r@ == graph_file(crate::app::option_str_view(name), id as nat),
{
    let mut r = match name {
        Some(name) => name.to_owned(),
        None => decimal_string(id),
    };
    r.append(".html");
    r
}

/// The head of the index of a run.
pub open spec fn index_head() -> Seq<char> {
    "<!DOCTYPE html>\n<html>\n  <head></head>\n  <body>"@
}

/// The line of the index that links to the file `filename`.
pub open spec fn index_entry(filename: Seq<char>) -> Seq<char> {
    "\n    <br><a href=\""@ + filename + "\">"@ + filename + "</a>"@
}

/// The foot of the index of a run.
pub open spec fn index_foot() -> Seq<char> {
    "\n  </body>\n</html>"@
}

/// Returns the line of the index that links to the file `filename`.
pub fn index_link(filename: &str) -> (r: String)
    ensures
        r@ == index_entry(filename@),
{
    let mut r = String::from_str("\n    <br><a href=\"");
    r.append(filename);
    r.append("\">");
    r.append(filename);
    r.append("</a>");
    r
}

/// The index of a run with links to `files`, in their order.
pub open spec fn index_of(files: Seq<Seq<char>>, upto: nat) -> Seq<char>
    decreases upto,
{
    if upto == 0 {
        index_head()
    } else {
        index_of(files, (upto - 1) as nat) + index_entry(files[upto - 1])
    }
}

/// Returns the index of a run: a page with a link to each of `files`.
pub fn index(files: &Vec<String>) -> (r: String)
    ensures
        r@ == index_of(crate::app::text_views(files@), files@.len()) + index_foot(),
{
    let ghost all = crate::app::text_views(files@);
    let mut r = String::from_str("<!DOCTYPE html>\n<html>\n  <head></head>\n  <body>");
    let mut i: usize = 0;
    while i < files.len()
        invariant
            i <= files.len(),
            all == crate::app::text_views(files@),
            r@ == index_of(all, i as nat),
        decreases files.len() - i,
    {
        r.append(index_link(files[i].as_str()).as_str());
        i = i + 1;
    }
    r.append("\n  </body>\n</html>");
    r
}

} // verus!
