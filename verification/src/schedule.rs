//! The per-post incremental build decision: a post is compiled when its
//! rendered output is missing or older than the source, and skipped
//! otherwise.  The caller reads modification times, hands them in as plain
//! values, and writes only the outputs this plan asks for.

use vstd::prelude::*;

use crate::text::chars_vec;
use crate::text::push_str_chars;
use crate::text::string_from_chars;

verus! {

/// One post source file, as the scheduler sees it: the file stem of the
/// source, its modification time, and whether (and when) the corresponding
/// rendered output already exists.  Times are nanoseconds since the epoch.
#[derive(Clone, Debug)]
pub struct PostSource {
    /// The source file's name without its extension
    pub stem: String,
    /// Modification time of the source file
    pub src_mtime: u128,
    /// Whether the rendered output file already exists
    pub dest_exists: bool,
    /// Modification time of the rendered output, meaningful only when it exists
    pub dest_mtime: u128,
}

/// What the build does with one post.
#[derive(Clone, Debug)]
pub struct PostPlan {
    /// The name of the output file, the source stem with an `.html` extension
    pub dest_name: String,
    /// Whether the post is (re)compiled and its output (over)written
    pub compile: bool,
}

/// An error that arose while compiling the posts of a project.
#[derive(Clone, Debug)]
pub enum CompilePostsError {
    /// A miscellaneous I/O error
    MiscIO { source: String, path: String },
}

/// A post is compiled exactly when its output is missing or strictly older
/// than its source.
pub open spec fn should_compile(p: PostSource) -> bool {
    !p.dest_exists || p.src_mtime > p.dest_mtime
}

/// The name of a post's output file: the source stem with `.html` appended.
pub fn html_file_name(stem: &String) -> (r: String)
    ensures
        r@ == stem@ + ".html"@,
{
    let mut out = chars_vec(stem.as_str());
    push_str_chars(&mut out, ".html");
    string_from_chars(&out)
}

/// Decides, for every post, whether it is compiled and where its output
/// goes.  Each post's decision depends on that post alone: compiling one
/// post never touches another post's output.
pub fn compile_posts(posts: &Vec<PostSource>) -> (r: Vec<PostPlan>)
    ensures
        r@.len() == posts@.len(),
        forall|i: int|
            0 <= i < posts@.len() ==> (#[trigger] r@[i]).compile == should_compile(posts@[i]),
        forall|i: int|
            0 <= i < posts@.len() ==> (#[trigger] r@[i]).dest_name@ == posts@[i].stem@ + ".html"@,
{
    let mut plans: Vec<PostPlan> = Vec::new();
    let mut i: usize = 0;
    while i < posts.len()
        invariant
            i <= posts@.len(),
            plans@.len() == i,
            forall|k: int|
                0 <= k < i ==> (#[trigger] plans@[k]).compile == should_compile(posts@[k]),
            forall|k: int|
                0 <= k < i ==> (#[trigger] plans@[k]).dest_name@ == posts@[k].stem@ + ".html"@,
        decreases posts@.len() - i,
    {
        let p = &posts[i];
        let compile = !p.dest_exists || p.src_mtime > p.dest_mtime;
        let dest_name = html_file_name(&p.stem);
        plans.push(PostPlan { dest_name, compile });
        i = i + 1;
    }
    plans
}

/// Incremental correctness: in one plan, a post whose source was touched
/// after its output is recompiled, while a post whose output is up to date
/// is left alone — its output file is neither rewritten nor has its
/// modification time changed.
pub proof fn lemma_incremental(
    posts: Seq<PostSource>,
    plans: Seq<PostPlan>,
    touched: int,
    untouched: int,
)
    requires
        plans.len() == posts.len(),
        forall|i: int| 0 <= i < posts.len() ==> (#[trigger] plans[i]).compile == should_compile(posts[i]),
        0 <= touched < posts.len(),
        0 <= untouched < posts.len(),
        posts[touched].src_mtime > posts[touched].dest_mtime,
        posts[untouched].dest_exists,
        posts[untouched].src_mtime <= posts[untouched].dest_mtime,
    ensures
        plans[touched].compile,
        !plans[untouched].compile,
{
}

/// Idempotence of scheduling: when every post's output exists and is at
/// least as new as its source, a build pass recompiles nothing.
pub proof fn lemma_schedule_idempotent(posts: Seq<PostSource>, plans: Seq<PostPlan>)
    requires
        plans.len() == posts.len(),
        forall|i: int| 0 <= i < posts.len() ==> (#[trigger] plans[i]).compile == should_compile(posts[i]),
        forall|i: int|
            0 <= i < posts.len() ==> (#[trigger] posts[i]).dest_exists && posts[i].src_mtime
                <= posts[i].dest_mtime,
    ensures
        forall|i: int| 0 <= i < plans.len() ==> !(#[trigger] plans[i]).compile,
{
}

} // verus!
