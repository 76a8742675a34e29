//! Note templates: the template values, the built-in set, and the
//! identifier slug derived from a template name.

use crate::text::{alnum_of, char_is_alphanumeric, lower_of, lowercase};
use crate::wiki::{find_sub, find_sub_exec, lemma_find_sub_props};
use vstd::prelude::*;
use vstd::string::StrSliceExecFns;
use vstd::string::StringExecFns;

verus! {

/// A template with all its content.
#[derive(Debug, Clone)]
pub struct Template {
    /// Unique identifier in slug format.
    pub id: String,
    /// Display name.
    pub name: String,
    /// Short description.
    pub description: String,
    /// Icon name.
    pub icon: String,
    /// Whether this is a built-in template.
    pub is_default: bool,
    /// Template content in Markdown.
    pub content: String,
}

/// A template listing entry, without the content.
#[derive(Debug, Clone)]
pub struct TemplateFile {
    pub id: String,
    pub name: String,
    pub description: String,
    pub icon: String,
}

/// Input for saving a new template.
#[derive(Debug, Clone)]
pub struct SaveTemplateInput {
    pub name: String,
    pub description: String,
    pub icon: String,
    pub content: String,
}

/// The built-in templates: meeting notes, a daily log, and a project plan,
/// in that order, each carrying its Markdown body with the `{{date}}`,
/// `{{time}}` and `{{day_of_week}}` variables the application substitutes.
pub fn get_default_templates() -> (r: Vec<Template>)
    ensures
        r@.len() == 3,
        r@[0].id@ == "meeting-notes"@,
        r@[0].name@ == "Meeting Notes"@,
        r@[0].description@ == "Structured template for meeting documentation"@,
        r@[0].icon@ == "users"@,
        r@[0].content@
            == "# Meeting Notes - {{date}}\n\n## Attendees\n\n- \n\n## Agenda\n\n1. \n\n## Notes\n\n\n## Action Items\n\n- [ ] \n"@,
        r@[1].id@ == "daily-log"@,
        r@[1].name@ == "Daily Log"@,
        r@[1].description@ == "Track your daily goals, accomplishments, and reflections"@,
        r@[1].icon@ == "calendar"@,
        r@[1].content@
            == "# {{day_of_week}}, {{date}}\n\n## Goals\n\n- [ ] \n\n## Accomplishments\n\n- \n\n## Reflections\n\n\n"@,
        r@[2].id@ == "project-plan"@,
        r@[2].name@ == "Project Plan"@,
        r@[2].description@ == "Plan and track project goals, timeline, and resources"@,
        r@[2].icon@ == "clipboard"@,
        r@[2].content@
            == "# Project Plan\n\nCreated: {{date}} {{time}}\n\n## Overview\n\n\n## Goals\n\n- \n\n## Timeline\n\n| Milestone | Date |\n| --- | --- |\n|  |  |\n\n## Resources\n\n- \n"@,
        forall|i: int| 0 <= i < r@.len() ==> (#[trigger] r@[i]).is_default,
{
    let mut templates: Vec<Template> = Vec::new();
    templates.push(
        Template {
            id: "meeting-notes".to_owned(),
            name: "Meeting Notes".to_owned(),
            description: "Structured template for meeting documentation".to_owned(),
            icon: "users".to_owned(),
            is_default: true,
            content: "# Meeting Notes - {{date}}\n\n## Attendees\n\n- \n\n## Agenda\n\n1. \n\n## Notes\n\n\n## Action Items\n\n- [ ] \n".to_owned(),
        },
    );
    templates.push(
        Template {
            id: "daily-log".to_owned(),
            name: "Daily Log".to_owned(),
            description: "Track your daily goals, accomplishments, and reflections".to_owned(),
            icon: "calendar".to_owned(),
            is_default: true,
            content: "# {{day_of_week}}, {{date}}\n\n## Goals\n\n- [ ] \n\n## Accomplishments\n\n- \n\n## Reflections\n\n\n".to_owned(),
        },
    );
    templates.push(
        Template {
            id: "project-plan".to_owned(),
            name: "Project Plan".to_owned(),
            description: "Plan and track project goals, timeline, and resources".to_owned(),
            icon: "clipboard".to_owned(),
            is_default: true,
            content: "# Project Plan\n\nCreated: {{date}} {{time}}\n\n## Overview\n\n\n## Goals\n\n- \n\n## Timeline\n\n| Milestone | Date |\n| --- | --- |\n|  |  |\n\n## Resources\n\n- \n".to_owned(),
        },
    );
    templates
}

/// The text with every occurrence of a non-empty pattern replaced, leftmost
/// first and without overlap, as str::replace leaves it.
pub open spec fn replace_all(s: Seq<char>, pat: Seq<char>, rep: Seq<char>) -> Seq<char>
    decreases s.len(),
    when pat.len() > 0
    via replace_all_decreases
{
    let i = find_sub(s, pat, 0);
    if i < 0 {
        s
    } else {
        s.subrange(0, i) + rep + replace_all(s.subrange(i + pat.len(), s.len() as int), pat, rep)
    }
}

#[via_fn]
proof fn replace_all_decreases(s: Seq<char>, pat: Seq<char>, rep: Seq<char>) {
    lemma_find_sub_props(s, pat, 0);
}

/// Replace every occurrence of a non-empty pattern in `s`.
fn replace_sub(s: &str, pat: &str, rep: &str) -> (r: String)
    requires
        pat@.len() > 0,
    ensures
        r@ == replace_all(s@, pat@, rep@),
    decreases s@.len(),
{
    let n = s.unicode_len();
    let m = pat.unicode_len();
    match find_sub_exec(s, pat, 0) {
        None => s.to_owned(),
        Some(i) => {
            let mut out = s.substring_char(0, i).to_owned();
            out.append(rep);
            let rest = s.substring_char(i + m, n);
            let tail = replace_sub(rest, pat, rep);
            out.append(tail.as_str());
            out
        },
    }
}

/// Substitute the template variables: `{{date}}`, `{{time}}` and
/// `{{day_of_week}}` each become the value the caller formatted for the
/// current moment.
pub fn replace_template_variables(content: &str, date: &str, time: &str, day_of_week: &str) -> (r:
    String)
    ensures
        r@ == replace_all(
            replace_all(replace_all(content@, "{{date}}"@, date@), "{{time}}"@, time@),
            "{{day_of_week}}"@,
            day_of_week@,
        ),
{
    proof {
        reveal_strlit("{{date}}");
        reveal_strlit("{{time}}");
        reveal_strlit("{{day_of_week}}");
    }
    let with_date = replace_sub(content, "{{date}}", date);
    let with_time = replace_sub(with_date.as_str(), "{{time}}", time);
    replace_sub(with_time.as_str(), "{{day_of_week}}", day_of_week)
}

/// The identifier the slug rule gives a lowercased name: runs of
/// characters that are not alphanumeric collapse to single dashes, with no
/// dash at either end. `started` records that a character was already kept,
/// `pending` that a separator was seen since.
pub open spec fn id_chars(s: Seq<char>, started: bool, pending: bool) -> Seq<char>
    decreases s.len(),
{
    if s.len() == 0 {
        Seq::<char>::empty()
    } else {
        let c = s[0];
        if alnum_of(c) {
            let head = if started && pending {
                seq!['-', c]
            } else {
                seq![c]
            };
            head + id_chars(s.drop_first(), true, false)
        } else {
            id_chars(s.drop_first(), started, true)
        }
    }
}

/// The identifier a template name produces.
pub open spec fn template_id_of(name: Seq<char>) -> Seq<char> {
    id_chars(lower_of(name), false, false)
}

/// Generate a template identifier from a display name: lowercase it, keep
/// the alphanumeric runs, and join them with single dashes.
pub fn generate_template_id(name: &str) -> (r: String)
    ensures
        r@ == template_id_of(name@),
{
    let lower = lowercase(name);
    let ls = lower.as_str();
    let n = ls.unicode_len();
    let ghost l = lower@;
    let mut out = String::new();
    let mut started: bool = false;
    let mut pending: bool = false;
    let mut i: usize = 0;
    proof {
        assert(l.skip(0) =~= l);
    }
    while i < n
        invariant
            n == l.len(),
            ls@ == l,
            i <= n,
            template_id_of(name@) == out@ + id_chars(l.skip(i as int), started, pending),
        decreases n - i,
    {
        let ghost t = l.skip(i as int);
        proof {
            assert(t[0] == l[i as int]);
            assert(t.drop_first() =~= l.skip(i + 1));
        }
        let c = ls.get_char(i);
        if char_is_alphanumeric(c) {
            if started && pending {
                crate::crypto::push_char(&mut out, '-');
            }
            crate::crypto::push_char(&mut out, c);
            proof {
                assert(out@ + id_chars(l.skip(i + 1), true, false) == template_id_of(name@));
            }
            started = true;
            pending = false;
        } else {
            pending = true;
        }
        i += 1;
    }
    proof {
        assert(l.skip(n as int) =~= Seq::<char>::empty());
    }
    out
}

} // verus!
