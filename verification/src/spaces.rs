//! Workspace ("space") metadata: the record, its templates, timestamp
//! migration, and the file-name safety check for reads the presentation
//! layer asks for. Directory and file handling is the shell's.

use vstd::prelude::*;
use vstd::string::StringExecFns;

use crate::clock::now_millis;
use crate::commands::contains_pattern;
use crate::commands::spec_contains;
use crate::commands::spec_replace;
use crate::commands::replace_all;
use crate::strings::str_eq;

verus! {

/// Timestamps below this are legacy values in seconds and are migrated
/// to milliseconds.
pub const TIMESTAMP_MILLIS_THRESHOLD: i64 = 100000000000;

/// Metadata of one space.
#[derive(Debug, Clone)]
pub struct Space {
    pub id: String,
    pub name: String,
    pub path: String,
    pub claude_md_path: String,
    /// Creation time, in milliseconds since the Unix epoch.
    pub created_at: i64,
    /// Last access time, in milliseconds since the Unix epoch.
    pub last_accessed_at: i64,
    pub template: Option<String>,
}

/// A request to create a space.
#[derive(Debug, Clone)]
pub struct CreateSpaceRequest {
    pub name: String,
    pub template: String,
}

/// One entry of a space's file listing.
#[derive(Debug, Clone)]
pub struct SpaceFile {
    pub name: String,
    pub path: String,
    pub size: u64,
    pub modified: i64,
    pub is_directory: bool,
}

/// The instruction-file template for a template name: the guided
/// quick-start layout, the bare custom layout, and the quick-start
/// layout again for any unknown name.
pub open spec fn spec_template_content(template: Seq<char>) -> Seq<char> {
    if template == "custom"@ {
        "# {name}\n\n[Write your own instructions for the agent]\n"@
    } else {
        "# {name}\n\n## Purpose\nThis is a workspace for [brief description].\n\n## Context\n[Any relevant context the agent should know]\n\n## Guidelines\n- [Any specific instructions for the agent]\n"@
    }
}

/// See [`spec_template_content`].
pub fn get_template_content(template: &str) -> (r: String)
    ensures
        r@ == spec_template_content(template@),
{
    if str_eq(template, "custom") {
        String::from_str("# {name}\n\n[Write your own instructions for the agent]\n")
    } else {
        String::from_str(
            "# {name}\n\n## Purpose\nThis is a workspace for [brief description].\n\n## Context\n[Any relevant context the agent should know]\n\n## Guidelines\n- [Any specific instructions for the agent]\n",
        )
    }
}

/// The instruction-file contents for a new space: the template with
/// every `{name}` placeholder replaced by the space's name.
pub fn render_space_template(template: &str, name: &str) -> (r: String)
    ensures
        r@ == spec_replace(spec_template_content(template@), "{name}"@, name@),
{
    proof {
        reveal_strlit("{name}");
    }
    let content = get_template_content(template);
    replace_all(content.as_str(), "{name}", name)
}

impl Space {
    /// A fresh space record: created and last-accessed now.
    pub fn create(
        id: String,
        name: String,
        path: String,
        claude_md_path: String,
        template: Option<String>,
    ) -> (r: Space)
        ensures
            r.id == id,
            r.name == name,
            r.path == path,
            r.claude_md_path == claude_md_path,
            r.template == template,
            r.created_at == r.last_accessed_at,
    {
        let now = now_millis();
        Space { id, name, path, claude_md_path, created_at: now, last_accessed_at: now, template }
    }

    /// Record an access now; nothing else changes.
    pub fn touch(&mut self)
        ensures
            final(self).id == old(self).id,
            final(self).name == old(self).name,
            final(self).path == old(self).path,
            final(self).claude_md_path == old(self).claude_md_path,
            final(self).created_at == old(self).created_at,
            final(self).template == old(self).template,
    {
        self.last_accessed_at = now_millis();
    }

    /// Migrate legacy timestamps stored in seconds to milliseconds: any
    /// value below the threshold is scaled by 1000. Reports whether the
    /// record changed and must be rewritten.
    pub fn normalize_timestamps(&mut self) -> (changed: bool)
        requires
            0 <= old(self).created_at,
            0 <= old(self).last_accessed_at,
        ensures
            final(self).id == old(self).id,
            final(self).name == old(self).name,
            final(self).path == old(self).path,
            final(self).claude_md_path == old(self).claude_md_path,
            final(self).template == old(self).template,
            final(self).created_at == (if old(self).created_at < TIMESTAMP_MILLIS_THRESHOLD {
                old(self).created_at * 1000
            } else {
                old(self).created_at as int
            }),
            final(self).last_accessed_at == (if old(self).last_accessed_at
                < TIMESTAMP_MILLIS_THRESHOLD {
                old(self).last_accessed_at * 1000
            } else {
                old(self).last_accessed_at as int
            }),
            changed == (old(self).created_at < TIMESTAMP_MILLIS_THRESHOLD || old(
                self,
            ).last_accessed_at < TIMESTAMP_MILLIS_THRESHOLD),
    {
        let mut changed = false;
        if self.created_at < TIMESTAMP_MILLIS_THRESHOLD {
            self.created_at = self.created_at * 1000;
            changed = true;
        }
        if self.last_accessed_at < TIMESTAMP_MILLIS_THRESHOLD {
            self.last_accessed_at = self.last_accessed_at * 1000;
            changed = true;
        }
        changed
    }
}

/// Spaces listed most recently accessed first.
pub open spec fn spec_sorted_by_recency(s: Seq<Space>) -> bool {
    forall|a: int, b: int|
        0 <= a < b < s.len() ==> s[a].last_accessed_at >= s[b].last_accessed_at
}

/// Swapping two adjacent elements keeps the collection of elements.
proof fn lemma_swap_adjacent_multiset(s: Seq<Space>, j: int)
    requires
        1 <= j < s.len(),
    ensures
        s.remove(j).insert(j - 1, s[j]).to_multiset() =~= s.to_multiset(),
{
    broadcast use vstd::seq_lib::group_to_multiset_ensures;

    let x = s[j];
    let t = s.remove(j);
    let u = t.insert(j - 1, x);
    assert(t.to_multiset() =~= s.to_multiset().remove(x));
    assert(u.remove(j - 1) =~= t);
    assert(u[j - 1] == x);
    assert(u.remove(j - 1).to_multiset() =~= u.to_multiset().remove(x));
    assert(u.contains(x));
    assert(u.to_multiset().count(x) > 0);
    assert(s.to_multiset().count(x) > 0) by {
        assert(s.contains(x));
    }
    assert(u.to_multiset() =~= u.to_multiset().remove(x).insert(x));
    assert(s.to_multiset() =~= s.to_multiset().remove(x).insert(x));
}

/// Order the listing most recently accessed first, keeping exactly the
/// given spaces.
pub fn sort_spaces_by_recency(spaces: &mut Vec<Space>)
    ensures
        spec_sorted_by_recency(final(spaces)@),
        final(spaces)@.to_multiset() == old(spaces)@.to_multiset(),
        final(spaces)@.len() == old(spaces)@.len(),
{
    let n = spaces.len();
    if n <= 1 {
        return;
    }
    let mut i: usize = 1;
    while i < n
        invariant
            1 <= i <= n,
            n == spaces@.len(),
            spec_sorted_by_recency(spaces@.subrange(0, i as int)),
            spaces@.to_multiset() == old(spaces)@.to_multiset(),
        decreases n - i,
    {
        proof {
            assert forall|a: int, b: int|
                0 <= a < b < i implies spaces@[a].last_accessed_at
                >= spaces@[b].last_accessed_at by {
                assert(spaces@.subrange(0, i as int)[a] == spaces@[a]);
                assert(spaces@.subrange(0, i as int)[b] == spaces@[b]);
            }
        }
        let mut j = i;
        while j > 0 && spaces[j - 1].last_accessed_at < spaces[j].last_accessed_at
            invariant
                0 <= j <= i < n == spaces@.len(),
                forall|a: int, b: int|
                    0 <= a < b <= i && b != j ==> spaces@[a].last_accessed_at
                        >= spaces@[b].last_accessed_at,
                forall|b: int|
                    j < b <= i ==> spaces@[j as int].last_accessed_at
                        >= (#[trigger] spaces@[b]).last_accessed_at,
                spaces@.to_multiset() == old(spaces)@.to_multiset(),
            decreases j,
        {
            let ghost before = spaces@;
            let moved = spaces.remove(j);
            spaces.insert(j - 1, moved);
            proof {
                lemma_swap_adjacent_multiset(before, j as int);
                assert(spaces@ =~= before.remove(j as int).insert(j - 1, before[j as int]));
            }
            j = j - 1;
        }
        proof {
            assert(spec_sorted_by_recency(spaces@.subrange(0, i + 1)));
        }
        i = i + 1;
    }
    proof {
        if n > 0 {
            assert(spaces@.subrange(0, n as int) =~= spaces@);
        }
    }
}

/// Whether a file name contains any blocked sensitive-file marker, so
/// reads of it are refused.
pub fn is_blocked_file_name(file_name: &str) -> (r: bool)
    ensures
        r == (spec_contains(file_name@, ".env"@) || spec_contains(file_name@, ".aws"@)
            || spec_contains(file_name@, ".ssh"@) || spec_contains(file_name@, "id_rsa"@)
            || spec_contains(file_name@, "id_ed25519"@) || spec_contains(
            file_name@,
            "credentials"@,
        ) || spec_contains(file_name@, "config"@) || spec_contains(file_name@, ".netrc"@)
            || spec_contains(file_name@, ".git-credentials"@)),
{
    proof {
        reveal_strlit(".env");
        reveal_strlit(".aws");
        reveal_strlit(".ssh");
        reveal_strlit("id_rsa");
        reveal_strlit("id_ed25519");
        reveal_strlit("credentials");
        reveal_strlit("config");
        reveal_strlit(".netrc");
        reveal_strlit(".git-credentials");
    }
    contains_pattern(file_name, ".env") || contains_pattern(file_name, ".aws")
        || contains_pattern(file_name, ".ssh") || contains_pattern(file_name, "id_rsa")
        || contains_pattern(file_name, "id_ed25519") || contains_pattern(file_name, "credentials")
        || contains_pattern(file_name, "config") || contains_pattern(file_name, ".netrc")
        || contains_pattern(file_name, ".git-credentials")
}

} // verus!
