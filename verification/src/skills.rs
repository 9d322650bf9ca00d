//! Skills: optional capabilities advertised to the model through the system
//! prompt. A skill is a markdown file with YAML frontmatter; only its name,
//! description and location are disclosed up front.

use vstd::prelude::*;

use crate::error::NekoError;
use crate::text::{
    chars_to_string, find_first, first_match, match_at, push_str, str_chars, trim_chars,
};

verus! {

/// A loaded skill.
#[derive(Debug, Clone)]
pub struct Skill {
    pub name: String,
    pub description: String,
    pub license: Option<String>,
    pub compatibility: Option<String>,
    pub metadata: Vec<(String, String)>,
    pub allowed_tools: Vec<String>,
    pub instructions: String,
    pub path: String,
}

/// True for the characters a skill name may contain.
pub open spec fn skill_name_char(c: char) -> bool {
    ('a' <= c && c <= 'z') || ('0' <= c && c <= '9') || c == '-'
}

/// A valid skill name: 1 to 64 characters, lowercase letters, digits and
/// hyphens, neither starting nor ending with a hyphen, and without
/// consecutive hyphens.
pub open spec fn valid_skill_name(s: Seq<char>) -> bool {
    &&& 1 <= s.len() <= 64
    &&& s[0] != '-'
    &&& s[s.len() - 1] != '-'
    &&& !crate::text::contains_seq(s, seq!['-', '-'])
    &&& forall|i: int| 0 <= i < s.len() ==> skill_name_char(#[trigger] s[i])
}

/// Check a skill name; `Ok` exactly for valid names.
pub fn validate_skill_name(name: &str) -> (r: Result<(), NekoError>)
    ensures
        r is Ok <==> valid_skill_name(name@),
{
    let cs = str_chars(name);
    if cs.len() == 0 || cs.len() > 64 {
        return Err(NekoError::Config("Skill name must be 1-64 characters".to_owned()));
    }
    if cs[0] == '-' || cs[cs.len() - 1] == '-' {
        return Err(NekoError::Config("Skill name must not start or end with '-'".to_owned()));
    }
    let mut dd: Vec<char> = Vec::new();
    dd.push('-');
    dd.push('-');
    assert(dd@ =~= seq!['-', '-']);
    match find_first(&cs, &dd) {
        Some(_) => {
            return Err(
                NekoError::Config("Skill name must not contain consecutive hyphens".to_owned()),
            );
        },
        None => {},
    }
    let mut k: usize = 0;
    while k < cs.len()
        invariant
            cs@ == name@,
            1 <= cs@.len() <= 64,
            cs@[0] != '-' && cs@[cs@.len() - 1] != '-',
            !crate::text::contains_seq(cs@, seq!['-', '-']),
            0 <= k <= cs@.len(),
            forall|i: int| 0 <= i < k ==> skill_name_char(#[trigger] cs@[i]),
        decreases cs@.len() - k,
    {
        let c = cs[k];
        if !((c >= 'a' && c <= 'z') || (c >= '0' && c <= '9') || c == '-') {
            proof {
                assert(!skill_name_char(name@[k as int]));
            }
            return Err(
                NekoError::Config(
                    "Skill name may only contain lowercase letters, digits, and hyphens".to_owned(),
                ),
            );
        }
        k += 1;
    }
    Ok(())
}

/// The XML fragment advertising one skill.
pub open spec fn skill_xml(name: Seq<char>, description: Seq<char>, path: Seq<char>) -> Seq<char> {
    "  <skill>\n    <name>"@ + name + "</name>\n    <description>"@ + description
        + "</description>\n    <location>"@ + path + "/SKILL.md</location>\n  </skill>\n"@
}

/// The XML fragments for a list of skills, in order.
pub open spec fn skills_xml_body(s: Seq<Skill>) -> Seq<char>
    decreases s.len(),
{
    if s.len() == 0 {
        Seq::empty()
    } else {
        skills_xml_body(s.take(s.len() - 1)) + skill_xml(
            s[s.len() - 1].name@,
            s[s.len() - 1].description@,
            s[s.len() - 1].path@,
        )
    }
}

/// The skills section of the system prompt: empty for no skills, otherwise
/// an XML listing of each skill's name, description and location.
pub open spec fn spec_skills_xml(s: Seq<Skill>) -> Seq<char> {
    if s.len() == 0 {
        Seq::empty()
    } else {
        "<available_skills>\n"@ + skills_xml_body(s) + "</available_skills>"@
    }
}

/// Render the skills listing for the system prompt.
pub fn skills_to_prompt_xml(skills: &Vec<Skill>) -> (r: String)
    ensures
        r@ == spec_skills_xml(skills@),
{
    if skills.len() == 0 {
        return String::new();
    }
    let mut v = str_chars("<available_skills>\n");
    let ghost body0 = "<available_skills>\n"@;
    assert(skills@.take(0) =~= Seq::<Skill>::empty());
    assert(v@ =~= body0 + skills_xml_body(skills@.take(0)));
    let mut k: usize = 0;
    while k < skills.len()
        invariant
            0 <= k <= skills@.len(),
            v@ == body0 + skills_xml_body(skills@.take(k as int)),
            body0 == "<available_skills>\n"@,
        decreases skills@.len() - k,
    {
        let ghost v0 = v@;
        push_str(&mut v, "  <skill>\n    <name>");
        push_str(&mut v, skills[k].name.as_str());
        push_str(&mut v, "</name>\n    <description>");
        push_str(&mut v, skills[k].description.as_str());
        push_str(&mut v, "</description>\n    <location>");
        push_str(&mut v, skills[k].path.as_str());
        push_str(&mut v, "/SKILL.md</location>\n  </skill>\n");
        proof {
            assert(skills@.take(k + 1).take(k as int) =~= skills@.take(k as int));
            assert(skills@.take(k + 1)[k as int] == skills@[k as int]);
            assert(v@ =~= v0 + skill_xml(
                skills@[k as int].name@,
                skills@[k as int].description@,
                skills@[k as int].path@,
            ));
            assert(v@ =~= body0 + skills_xml_body(skills@.take(k + 1)));
        }
        k += 1;
    }
    push_str(&mut v, "</available_skills>");
    proof {
        assert(skills@.take(skills@.len() as int) =~= skills@);
        assert(v@ =~= spec_skills_xml(skills@));
    }
    chars_to_string(&v)
}

/// Where the frontmatter of a skill file ends: the first `---` at or after
/// index 3, when the file starts with `---`.
pub open spec fn frontmatter_split(s: Seq<char>) -> Option<(Seq<char>, Seq<char>)> {
    if s.len() < 3 || s.take(3) != seq!['-', '-', '-'] {
        None
    } else {
        match first_match(s.skip(3), seq!['-', '-', '-']) {
            Some(i) => Some((s.subrange(3, 3 + i), s.skip(3 + i + 3))),
            None => None,
        }
    }
}

/// Split a skill file into its YAML frontmatter and its body. Fails when the
/// file does not start with `---` or has no closing `---`.
#[verifier::loop_isolation(false)]
pub fn split_frontmatter(content: &str) -> (r: Option<(String, String)>)
    ensures
        match r {
            Some(p) => frontmatter_split(content@) == Some((p.0@, p.1@)),
            None => frontmatter_split(content@) is None,
        },
{
    let cs = str_chars(content);
    let mut dashes: Vec<char> = Vec::new();
    dashes.push('-');
    dashes.push('-');
    dashes.push('-');
    assert(dashes@ =~= seq!['-', '-', '-']);
    if cs.len() < 3 || !(cs[0] == '-' && cs[1] == '-' && cs[2] == '-') {
        proof {
            if cs@.len() >= 3 && cs@.take(3) == seq!['-', '-', '-'] {
                assert(cs@.take(3)[0] == cs@[0]);
                assert(cs@.take(3)[1] == cs@[1]);
                assert(cs@.take(3)[2] == cs@[2]);
            }
        }
        return None;
    }
    assert(cs@.take(3) =~= seq!['-', '-', '-']);
    let mut rest: Vec<char> = Vec::new();
    let mut k: usize = 3;
    while k < cs.len()
        invariant
            3 <= k <= cs@.len(),
            rest@ == cs@.subrange(3, k as int),
        decreases cs@.len() - k,
    {
        rest.push(cs[k]);
        assert(rest@ =~= cs@.subrange(3, k + 1));
        k += 1;
    }
    assert(rest@ =~= cs@.skip(3));
    match find_first(&rest, &dashes) {
        None => None,
        Some(i) => {
            let mut yaml: Vec<char> = Vec::new();
            let mut a: usize = 0;
            while a < i
                invariant
                    0 <= a <= i,
                    i + 3 <= rest@.len(),
                    yaml@ == rest@.take(a as int),
                decreases i - a,
            {
                yaml.push(rest[a]);
                assert(yaml@ =~= rest@.take(a + 1));
                a += 1;
            }
            let mut body: Vec<char> = Vec::new();
            let mut b: usize = i + 3;
            while b < rest.len()
                invariant
                    i + 3 <= b <= rest@.len(),
                    body@ == rest@.subrange(i + 3, b as int),
                decreases rest@.len() - b,
            {
                body.push(rest[b]);
                assert(body@ =~= rest@.subrange(i + 3, b + 1));
                b += 1;
            }
            proof {
                assert(yaml@ =~= cs@.subrange(3, 3 + i));
                assert(body@ =~= cs@.skip(3 + i + 3));
            }
            Some((chars_to_string(&yaml), chars_to_string(&body)))
        },
    }
}

/// Trim a string's surrounding whitespace; used on a skill's body.
pub fn trim_str(s: &str) -> (r: String)
    ensures
        r@ == crate::text::spec_trim(s@),
{
    let cs = str_chars(s);
    let t = trim_chars(&cs);
    chars_to_string(&t)
}

} // verus!
