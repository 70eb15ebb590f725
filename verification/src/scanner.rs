//! The annotation scanner: finds, in the text of a test source, the test
//! functions that a comment block with `@name: value` lines precedes, and
//! makes a question of each.

use vstd::prelude::*;
use vstd::string::*;
use crate::keyed::{
    distinct_names, lemma_with_entry_keeps_distinct, position_of, value_of, with_entry,
};
use crate::number::{parse_i64, parsed_i64};
use crate::pattern::{find_all, first_groups, pattern_first_groups, pattern_matches};
use crate::scoring::{Attribute, QuestionCase, QuestionModel};
use crate::text::{chars_of, find_char, first_index, trim_range, trimmed};
use crate::views::{texts, views};

verus! {

/// A comment block with at least one `@` line, followed by a test function.
pub const BLOCK_PATTERN: &'static str = r"\/\*[^@]*(@[^\@\/]*)+\*\/\s*function\s(test_[^\(]+)";

/// One `@name: value` line of a comment block.
pub const ATTRIBUTE_PATTERN: &'static str = r"@.*[\s]*:[\s]*[^\n]*";

/// The head of a test function; its first group is the function's name.
pub const NAME_PATTERN: &'static str = r"function\s(test[^\(]*)";

/// The attribute that holds a question's score.
pub const SCORE_ATTRIBUTE: &'static str = "Score";

/// The attribute an `@name: value` line stands for. The marker in front is
/// dropped; the name is what precedes the first colon and the value what
/// lies between it and the next one, both without surrounding white space.
/// A line without a colon stands for nothing.
pub open spec fn attribute_of(line: Seq<char>) -> Option<(Seq<char>, Seq<char>)> {
    let start = if line.len() > 0 { 1int } else { 0int };
    let body = line.subrange(start, line.len() as int);
    let colon = first_index(body, ':');
    if colon == body.len() {
        None
    } else {
        let rest = body.subrange(colon + 1, body.len() as int);
        Some((trimmed(body.subrange(0, colon)), trimmed(rest.subrange(0, first_index(rest, ':')))))
    }
}

/// Reads one `@name: value` line.
pub fn parse_attribute(line: &str) -> (r: Option<Attribute>)
    ensures
        match r {
            Some(a) => attribute_of(line@) == Some(a@),
            None => attribute_of(line@) is None,
        },
{
    let v = chars_of(line);
    let n = v.len();
    let start: usize = if n > 0 { 1 } else { 0 };
    let ghost body = v@.subrange(start as int, n as int);
    let colon = find_char(&v, start, n, ':');
    if colon == n {
        return None;
    }
    let ghost rest = body.subrange(colon - start + 1, body.len() as int);
    let next = find_char(&v, colon + 1, n, ':');
    proof {
        assert(rest == v@.subrange(colon as int + 1, n as int));
        assert(body.subrange(0, colon - start) == v@.subrange(start as int, colon as int));
        assert(rest.subrange(0, next - colon - 1) == v@.subrange(colon as int + 1, next as int));
    }
    let name = trim_range(&v, start, colon);
    let value = trim_range(&v, colon + 1, next);
    Some(Attribute { name, value })
}

/// The index of the first attribute called `name`, or the number of
/// attributes where none is.
pub fn find_attribute(attrs: &Vec<Attribute>, name: &String) -> (i: usize)
    ensures
        i == position_of(views(attrs@), name@),
        i <= attrs.len(),
{
    let mut i: usize = 0;
    proof {
        assert(views(attrs@).subrange(0, attrs.len() as int) =~= views(attrs@));
    }
    while i < attrs.len()
        invariant
            i <= attrs.len(),
            position_of(views(attrs@), name@) == i + position_of(
                views(attrs@).subrange(i as int, attrs.len() as int),
                name@,
            ),
        decreases attrs.len() - i,
    {
        let ghost rest = views(attrs@).subrange(i as int, attrs.len() as int);
        proof {
            assert(rest[0] == attrs@[i as int]@);
            assert(rest.drop_first() == views(attrs@).subrange(i as int + 1, attrs.len() as int));
        }
        if attrs[i].name == *name {
            return i;
        }
        i += 1;
    }
    proof {
        assert(views(attrs@).subrange(i as int, attrs.len() as int).len() == 0);
    }
    i
}

/// Gives the attribute `name` the value `value`.
pub fn set_attribute(attrs: &mut Vec<Attribute>, name: String, value: String)
    ensures
        views(final(attrs)@) == with_entry(views(old(attrs)@), name@, value@),
{
    let i = find_attribute(attrs, &name);
    let ghost before = views(attrs@);
    if i < attrs.len() {
        attrs.set(i, Attribute { name, value });
        proof {
            assert(views(attrs@) =~= before.update(i as int, (name@, value@)));
        }
    } else {
        attrs.push(Attribute { name, value });
        proof {
            assert(views(attrs@) =~= before.push((name@, value@)));
        }
    }
}

/// The attributes that a block's `@` lines stand for, each line in turn
/// giving its name its value. Lines that stand for nothing are passed over.
pub open spec fn attributes_from(lines: Seq<Seq<char>>) -> Seq<(Seq<char>, Seq<char>)>
    decreases lines.len(),
{
    if lines.len() == 0 {
        Seq::empty()
    } else {
        let earlier = attributes_from(lines.drop_last());
        match attribute_of(lines.last()) {
            Some((name, value)) => with_entry(earlier, name, value),
            None => earlier,
        }
    }
}

/// The attributes of a block are a mapping: no two of them have the same
/// name.
pub proof fn lemma_attributes_are_a_mapping(lines: Seq<Seq<char>>)
    ensures
        distinct_names(attributes_from(lines)),
    decreases lines.len(),
{
    if lines.len() > 0 {
        lemma_attributes_are_a_mapping(lines.drop_last());
        match attribute_of(lines.last()) {
            Some((name, value)) => {
                lemma_with_entry_keeps_distinct(attributes_from(lines.drop_last()), name, value);
            },
            None => {},
        }
    }
}

/// The score that the attributes declare: the integer that the attribute
/// `Score` holds, and 0 where there is none or it holds no integer.
pub open spec fn declared_score_of(attrs: Seq<(Seq<char>, Seq<char>)>) -> int {
    match value_of(attrs, SCORE_ATTRIBUTE@) {
        Some(text) => match parsed_i64(text) {
            Some(score) => score as int,
            None => 0,
        },
        None => 0,
    }
}

/// The question that a block stands for, given its `@` lines and the names
/// found in its function head: the last name found, with the attributes of
/// the lines. A block in which no name was found stands for no question.
pub open spec fn question_of(lines: Seq<Seq<char>>, names: Seq<Seq<char>>) -> Option<QuestionModel> {
    if names.len() == 0 {
        None
    } else {
        Some(
            QuestionModel {
                function_name: names.last(),
                declared_score: declared_score_of(attributes_from(lines)),
                attributes: attributes_from(lines),
                passed: false,
            },
        )
    }
}

/// Reads the attributes of a block from its `@` lines.
pub fn read_attributes(lines: &Vec<String>) -> (attrs: Vec<Attribute>)
    ensures
        views(attrs@) == attributes_from(texts(lines@)),
{
    let mut attrs: Vec<Attribute> = Vec::new();
    let mut i: usize = 0;
    proof {
        assert(texts(lines@).subrange(0, 0) =~= Seq::empty());
        assert(views(attrs@) =~= Seq::empty());
    }
    while i < lines.len()
        invariant
            i <= lines.len(),
            views(attrs@) == attributes_from(texts(lines@).subrange(0, i as int)),
        decreases lines.len() - i,
    {
        let ghost before = texts(lines@).subrange(0, i as int);
        let ghost after = texts(lines@).subrange(0, i as int + 1);
        proof {
            assert(after.drop_last() == before);
            assert(after.last() == lines@[i as int]@);
        }
        match parse_attribute(lines[i].as_str()) {
            Some(a) => {
                set_attribute(&mut attrs, a.name, a.value);
            },
            None => {},
        }
        i += 1;
    }
    proof {
        assert(texts(lines@).subrange(0, lines.len() as int) == texts(lines@));
    }
    attrs
}

/// Reads the score that the attributes declare.
pub fn declared_score(attrs: &Vec<Attribute>) -> (score: i64)
    ensures
        score == declared_score_of(views(attrs@)),
{
    let key = String::from_str(SCORE_ATTRIBUTE);
    let i = find_attribute(attrs, &key);
    if i < attrs.len() {
        match parse_i64(attrs[i].value.as_str()) {
            Some(score) => score,
            None => 0,
        }
    } else {
        0
    }
}

/// Makes the question of a block from its `@` lines and the names found in
/// its function head.
pub fn question_from_parts(lines: &Vec<String>, names: &Vec<String>) -> (r: Option<QuestionCase>)
    ensures
        match r {
            Some(q) => question_of(texts(lines@), texts(names@)) == Some(q@),
            None => question_of(texts(lines@), texts(names@)) is None,
        },
{
    if names.len() == 0 {
        return None;
    }
    let attributes = read_attributes(lines);
    let score = declared_score(&attributes);
    Some(
        QuestionCase {
            function_name: names[names.len() - 1].clone(),
            declared_score: score,
            attributes,
            passed: false,
        },
    )
}

/// The questions of a list of blocks, in order: for each block, the question
/// made of its `@` lines and of the names in its function head. `None` where
/// a pattern does not compile.
pub open spec fn questions_of(blocks: Seq<Seq<char>>) -> Option<Seq<QuestionModel>>
    decreases blocks.len(),
{
    if blocks.len() == 0 {
        Some(Seq::empty())
    } else {
        match (
            questions_of(blocks.drop_last()),
            pattern_matches(ATTRIBUTE_PATTERN@, blocks.last()),
            pattern_first_groups(NAME_PATTERN@, blocks.last()),
        ) {
            (Some(earlier), Some(lines), Some(names)) => Some(
                match question_of(lines, names) {
                    Some(q) => earlier.push(q),
                    None => earlier,
                },
            ),
            _ => None,
        }
    }
}

/// The questions found in the text of one source: those of its annotated
/// blocks, in order of occurrence. `None` where a pattern does not compile.
pub open spec fn scanned(text: Seq<char>) -> Option<Seq<QuestionModel>> {
    match pattern_matches(BLOCK_PATTERN@, text) {
        Some(blocks) => questions_of(blocks),
        None => None,
    }
}

/// The questions found in several sources, source after source.
pub open spec fn scanned_all(sources: Seq<Seq<char>>) -> Option<Seq<QuestionModel>>
    decreases sources.len(),
{
    if sources.len() == 0 {
        Some(Seq::empty())
    } else {
        match (scanned_all(sources.drop_last()), scanned(sources.last())) {
            (Some(earlier), Some(found)) => Some(earlier + found),
            _ => None,
        }
    }
}

/// Where the blocks up to some point have no questions, the whole list has
/// none either.
proof fn lemma_questions_of_prefix(blocks: Seq<Seq<char>>, k: int)
    requires
        0 <= k <= blocks.len(),
        questions_of(blocks.subrange(0, k)) is None,
    ensures
        questions_of(blocks) is None,
    decreases blocks.len() - k,
{
    if k == blocks.len() {
        assert(blocks.subrange(0, k) == blocks);
    } else {
        assert(blocks.subrange(0, k + 1).drop_last() == blocks.subrange(0, k));
        lemma_questions_of_prefix(blocks, k + 1);
    }
}

/// Where the sources up to some point have no questions, the whole list has
/// none either.
proof fn lemma_scanned_all_prefix(sources: Seq<Seq<char>>, k: int)
    requires
        0 <= k <= sources.len(),
        scanned_all(sources.subrange(0, k)) is None,
    ensures
        scanned_all(sources) is None,
    decreases sources.len() - k,
{
    if k == sources.len() {
        assert(sources.subrange(0, k) == sources);
    } else {
        assert(sources.subrange(0, k + 1).drop_last() == sources.subrange(0, k));
        lemma_scanned_all_prefix(sources, k + 1);
    }
}

/// The view of an optional list of questions.
pub open spec fn opt_questions(o: Option<Vec<QuestionCase>>) -> Option<Seq<QuestionModel>> {
    match o {
        Some(v) => Some(views(v@)),
        None => None,
    }
}

/// Makes the questions of the annotated blocks found in a source.
pub fn questions_from_blocks(blocks: &Vec<String>) -> (r: Option<Vec<QuestionCase>>)
    ensures
        opt_questions(r) == questions_of(texts(blocks@)),
{
    let mut found: Vec<QuestionCase> = Vec::new();
    let mut i: usize = 0;
    proof {
        assert(texts(blocks@).subrange(0, 0) =~= Seq::empty());
        assert(views(found@) =~= Seq::empty());
    }
    while i < blocks.len()
        invariant
            i <= blocks.len(),
            questions_of(texts(blocks@).subrange(0, i as int)) == Some(views(found@)),
        decreases blocks.len() - i,
    {
        let ghost before = texts(blocks@).subrange(0, i as int);
        let ghost after = texts(blocks@).subrange(0, i as int + 1);
        proof {
            assert(after.drop_last() == before);
            assert(after.last() == blocks@[i as int]@);
        }
        let lines = find_all(ATTRIBUTE_PATTERN, blocks[i].as_str());
        let names = first_groups(NAME_PATTERN, blocks[i].as_str());
        match (lines, names) {
            (Some(lines), Some(names)) => {
                let ghost earlier = views(found@);
                match question_from_parts(&lines, &names) {
                    Some(q) => {
                        found.push(q);
                        proof {
                            assert(views(found@) =~= earlier.push(q@));
                        }
                    },
                    None => {},
                }
            },
            _ => {
                proof {
                    lemma_questions_of_prefix(texts(blocks@), i as int + 1);
                }
                return None;
            },
        }
        i += 1;
    }
    proof {
        assert(texts(blocks@).subrange(0, blocks.len() as int) == texts(blocks@));
    }
    Some(found)
}

/// Scans the text of one source for annotated test functions.
pub fn scan_source(text: &str) -> (r: Option<Vec<QuestionCase>>)
    ensures
        opt_questions(r) == scanned(text@),
{
    match find_all(BLOCK_PATTERN, text) {
        Some(blocks) => questions_from_blocks(&blocks),
        None => None,
    }
}

/// Scans several sources, one after the other.
pub fn scan_sources(sources: &Vec<String>) -> (r: Option<Vec<QuestionCase>>)
    ensures
        opt_questions(r) == scanned_all(texts(sources@)),
{
    let mut found: Vec<QuestionCase> = Vec::new();
    let mut i: usize = 0;
    proof {
        assert(texts(sources@).subrange(0, 0) =~= Seq::empty());
        assert(views(found@) =~= Seq::empty());
    }
    while i < sources.len()
        invariant
            i <= sources.len(),
            scanned_all(texts(sources@).subrange(0, i as int)) == Some(views(found@)),
        decreases sources.len() - i,
    {
        let ghost before = texts(sources@).subrange(0, i as int);
        let ghost after = texts(sources@).subrange(0, i as int + 1);
        proof {
            assert(after.drop_last() == before);
            assert(after.last() == sources@[i as int]@);
        }
        match scan_source(sources[i].as_str()) {
            Some(mut more) => {
                let ghost earlier = views(found@);
                let ghost added = views(more@);
                found.append(&mut more);
                proof {
                    assert(views(found@) =~= earlier + added);
                }
            },
            None => {
                proof {
                    lemma_scanned_all_prefix(texts(sources@), i as int + 1);
                }
                return None;
            },
        }
        i += 1;
    }
    proof {
        assert(texts(sources@).subrange(0, sources.len() as int) == texts(sources@));
    }
    Some(found)
}

} // verus!
