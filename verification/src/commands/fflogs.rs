//! `!fflogs`: a character's best parses on FF Logs, for one job.
use vstd::prelude::*;
use std::sync::Arc;
use crate::env::BotEnv;
use crate::reply::{
    answer, outcome, refusal, CommandResult, CommandSuccess, Embed, EmbedField,
    EmbedValue, FieldValue, Outcome, Reply, ReplyValue,
};
use crate::text::{lowercase, nat_text, push_str, push_u64, replace_all, replace_text, same_text, to_lowercase};

verus! {

/// The parameters of `!fflogs`.
pub struct Params {
    /// The server the character is on.
    pub server: String,
    /// The character's first name.
    pub first_name: String,
    /// The character's last name.
    pub last_name: String,
    /// The job to look at, where one was given.
    pub job: Option<String>,
}

impl Params {
    /// The character's full name: first and last name with a space between.
    pub fn character_name(&self) -> (s: String)
        ensures
            s@ == self.first_name@ + " "@ + self.last_name@,
    {
        let mut s = String::new();
        push_str(&mut s, self.first_name.as_str());
        push_str(&mut s, " ");
        push_str(&mut s, self.last_name.as_str());
        s
    }
}

/// The character a parse is about.
pub struct CharacterRef {
    pub name: String,
    pub id: u64,
}

/// One spec (job) of a parse of FF Logs.
pub struct SpecSummary {
    /// The spec's name, as FF Logs writes it.
    pub spec: String,
    /// The character of the spec's first data, if it has any data.
    pub first_character: Option<CharacterRef>,
    /// The line that shows the spec's data with the best historical percentile, if it has any data.
    pub best_line: Option<String>,
}

/// One parse (encounter) of FF Logs.
pub struct ParseSummary {
    /// The encounter's name.
    pub name: String,
    pub specs: Vec<SpecSummary>,
}

/// A spec as values.
pub struct SpecValue {
    pub spec: Seq<char>,
    pub first_character: Option<(Seq<char>, u64)>,
    pub best_line: Option<Seq<char>>,
}

/// A parse as values.
pub struct ParseValue {
    pub name: Seq<char>,
    pub specs: Seq<SpecValue>,
}

impl View for SpecSummary {
    type V = SpecValue;

    open spec fn view(&self) -> SpecValue {
        SpecValue {
            spec: self.spec@,
            first_character: match self.first_character {
                Some(c) => Some((c.name@, c.id)),
                None => None,
            },
            best_line: match self.best_line {
                Some(l) => Some(l@),
                None => None,
            },
        }
    }
}

impl View for ParseSummary {
    type V = ParseValue;

    open spec fn view(&self) -> ParseValue {
        ParseValue { name: self.name@, specs: self.specs@.map_values(|s: SpecSummary| s@) }
    }
}

/// The views of a sequence of parses.
pub open spec fn parse_values(v: Seq<ParseSummary>) -> Seq<ParseValue> {
    v.map_values(|p: ParseSummary| p@)
}

/// What the first spec of the first parse says about the character.
pub struct FirstParse {
    /// The first spec's name.
    pub spec: String,
    /// The character of its first data.
    pub character: CharacterRef,
}

/// A job's name as specs are compared with it: lowercased, without spaces.
pub open spec fn job_key(job: Seq<char>) -> Seq<char> {
    replace_all(lowercase(job), " "@, Seq::empty())
}

/// The first spec of `specs` whose lowercased name is `key`.
pub open spec fn spec_for(specs: Seq<SpecValue>, key: Seq<char>) -> Option<SpecValue>
    decreases specs.len(),
{
    if specs.len() == 0 {
        None
    } else if lowercase(specs[0].spec) == key {
        Some(specs[0])
    } else {
        spec_for(specs.drop_first(), key)
    }
}

/// Whether `k` is the first index of `specs` whose lowercased name is `key`.
pub open spec fn first_match(specs: Seq<SpecValue>, key: Seq<char>, k: int) -> bool {
    &&& 0 <= k < specs.len()
    &&& lowercase(specs[k].spec) == key
    &&& forall|j: int| 0 <= j < k ==> lowercase(#[trigger] specs[j].spec) != key
}

/// The spec chosen for a job is the first one, over the whole list, whose lowercased name is
/// the job's key; none is chosen only where no spec of the list has that name.
pub proof fn lemma_spec_for_first_match(specs: Seq<SpecValue>, key: Seq<char>, k: int)
    ensures
        first_match(specs, key, k) ==> spec_for(specs, key) == Some(specs[k]),
        (forall|j: int| 0 <= j < specs.len() ==> lowercase(#[trigger] specs[j].spec) != key) ==> spec_for(specs, key) is None,
    decreases specs.len(),
{
    if specs.len() > 0 {
        let rest = specs.drop_first();
        lemma_spec_for_first_match(rest, key, k - 1);
        if first_match(specs, key, k) && k > 0 {
            assert(lowercase(specs[0].spec) != key);
            assert(rest[k - 1] == specs[k]);
            assert forall|j: int| 0 <= j < k - 1 implies lowercase(#[trigger] rest[j].spec) != key by {
                assert(rest[j] == specs[j + 1]);
            }
        }
        if forall|j: int| 0 <= j < specs.len() ==> lowercase(#[trigger] specs[j].spec) != key {
            assert(lowercase(specs[0].spec) != key);
            assert forall|j: int| 0 <= j < rest.len() implies lowercase(#[trigger] rest[j].spec) != key by {
                assert(rest[j] == specs[j + 1]);
            }
        }
    }
}

/// The field that shows a parse for the job, if its spec for the job has data.
pub open spec fn parse_field(p: ParseValue, key: Seq<char>) -> Option<FieldValue> {
    match spec_for(p.specs, key) {
        Some(s) => match s.best_line {
            Some(line) => Some(FieldValue { name: p.name, value: line, inline: false }),
            None => None,
        },
        None => None,
    }
}

/// The fields that show the parses for the job, in the parses' order.
pub open spec fn parse_fields(parses: Seq<ParseValue>, key: Seq<char>) -> Seq<FieldValue>
    decreases parses.len(),
{
    if parses.len() == 0 {
        Seq::empty()
    } else {
        let rest = parse_fields(parses.drop_last(), key);
        match parse_field(parses.last(), key) {
            Some(f) => rest.push(f),
            None => rest,
        }
    }
}

/// Every parse that has a field for the job has it among the fields.
proof fn lemma_parse_fields_contain(parses: Seq<ParseValue>, key: Seq<char>, i: int)
    requires
        0 <= i < parses.len(),
        parse_field(parses[i], key) is Some,
    ensures
        parse_fields(parses, key).contains(parse_field(parses[i], key)->0),
    decreases parses.len(),
{
    let rest = parses.drop_last();
    let f = parse_field(parses[i], key)->0;
    if i < parses.len() - 1 {
        assert(rest[i] == parses[i]);
        lemma_parse_fields_contain(rest, key, i);
        let r = parse_fields(rest, key);
        let k = choose|k: int| 0 <= k < r.len() && r[k] == f;
        match parse_field(parses.last(), key) {
            Some(g) => assert(r.push(g)[k] == f),
            None => assert(r[k] == f),
        }
    } else {
        let r = parse_fields(rest, key);
        assert(r.push(f)[r.len() as int] == f);
    }
}

/// The address of a character's page on FF Logs.
pub open spec fn character_url(id: u64) -> Seq<char> {
    "https://www.fflogs.com/character/id/"@ + nat_text(id as nat)
}

/// The answer of `!fflogs` for a job, once the parses are known.
pub open spec fn fflogs_answer(
    job: Seq<char>,
    server: Seq<char>,
    character: (Seq<char>, u64),
    parses: Seq<ParseValue>,
) -> Outcome {
    let fields = parse_fields(parses, job_key(job));
    if fields.len() == 0 {
        answer("No parses for that job."@)
    } else {
        Outcome::Success(
            Some(
                ReplyValue::Embed(
                    EmbedValue {
                        title: Some(character.0),
                        description: None,
                        url: Some(character_url(character.1)),
                        fields: seq![
                            FieldValue { name: "Job"@, value: job, inline: true },
                            FieldValue { name: "Server"@, value: server, inline: true },
                        ] + fields,
                        footer: None,
                    },
                ),
            ),
        )
    }
}

/// `!fflogs`.
pub struct FfLogsCommand {
    /// The key for the FF Logs API.
    pub api_key: String,
}

impl FfLogsCommand {
    /// The command, with the FF Logs API key of the environment.
    pub fn new(env: Arc<BotEnv>) -> (c: FfLogsCommand)
        ensures
            c.api_key@ == env.fflogs_api_key@,
    {
        FfLogsCommand { api_key: env.fflogs_api_key.clone() }
    }

    /// The answer when the server named is not one FF Logs knows.
    pub fn invalid_server() -> (r: CommandResult)
        ensures
            outcome(r) == refusal("Invalid server."@),
    {
        crate::reply::refuse("Invalid server.")
    }

    /// The answer when FF Logs refuses the query with an error status and message.
    pub fn api_error(status: u64, error: &str) -> (r: CommandResult)
        ensures
            outcome(r) == refusal(
                "FF Logs didn't like that ("@ + nat_text(status as nat) + "): "@ + error@,
            ),
    {
        let mut m = String::new();
        push_str(&mut m, "FF Logs didn't like that (");
        push_u64(&mut m, status);
        push_str(&mut m, "): ");
        push_str(&mut m, error);
        crate::reply::refuse_with(m)
    }

    /// Looks at the parses found: none found is answered at once; a first parse without a
    /// spec, or whose first spec has no data, is a failure; otherwise the first spec and its
    /// character are what the answer is built from.
    pub fn check_parses(parses: &Vec<ParseSummary>) -> (res: Result<FirstParse, CommandResult>)
        ensures
            parses@.len() == 0 ==> (res matches Err(r) && outcome(r) == answer("No parses found."@)),
            parses@.len() > 0 && parses@[0].specs@.len() == 0 ==> (res matches Err(r) && outcome(r)
                == refusal("Somehow there was no first spec."@)),
            parses@.len() > 0 && parses@[0].specs@.len() > 0
                && parses@[0].specs@[0].first_character is None ==> (res matches Err(r)
                && outcome(r) == refusal("Somehow there was no first data."@)),
            parses@.len() > 0 && parses@[0].specs@.len() > 0
                && parses@[0].specs@[0].first_character is Some ==> res is Ok,
            res matches Ok(f) ==> {
                &&& parses@.len() > 0
                &&& parses@[0].specs@.len() > 0
                &&& parses@[0].specs@[0].first_character matches Some(c)
                &&& f.spec@ == parses@[0].specs@[0].spec@
                &&& f.character.name@ == c.name@
                &&& f.character.id == c.id
            },
    {
        if parses.len() == 0 {
            return Err(crate::reply::success_with("No parses found.".to_owned()));
        }
        if parses[0].specs.len() == 0 {
            return Err(crate::reply::refuse("Somehow there was no first spec."));
        }
        let first = &parses[0].specs[0];
        match &first.first_character {
            None => Err(crate::reply::refuse("Somehow there was no first data.")),
            Some(c) => Ok(
                FirstParse {
                    spec: first.spec.clone(),
                    character: CharacterRef { name: c.name.clone(), id: c.id },
                },
            ),
        }
    }

    /// The answer of `!fflogs` for `job` on `server`: the character's page and, for each
    /// parse whose first spec named like the job has data, a field with its best line. It is
    /// the last step of the command: the caller that queries FF Logs answers its errors with
    /// `invalid_server` or `api_error`, and checks the parses with `check_parses` first.
    pub fn run(job: &str, server: &str, first: &FirstParse, parses: &Vec<ParseSummary>) -> (r:
        CommandResult)
        ensures
            outcome(r) == fflogs_answer(
                job@,
                server@,
                (first.character.name@, first.character.id),
                parse_values(parses@),
            ),
            forall|i: int, k: int|
                0 <= i < parses@.len() && 0 <= k < parses@[i].specs@.len()
                    && lowercase(#[trigger] parses@[i].specs@[k].spec@) == job_key(job@)
                    && (forall|j: int| 0 <= j < k ==> lowercase(#[trigger] parses@[i].specs@[j].spec@) != job_key(job@))
                    && parses@[i].specs@[k].best_line is Some
                ==> (outcome(r) matches Outcome::Success(Some(ReplyValue::Embed(e))) && e.fields.contains(
                    FieldValue {
                        name: parses@[i].name@,
                        value: parses@[i].specs@[k].best_line->0@,
                        inline: false,
                    },
                )),
    {
        proof {
            let key = job_key(job@);
            let pv = parse_values(parses@);
            assert forall|i: int, k: int|
                0 <= i < parses@.len() && 0 <= k < parses@[i].specs@.len()
                    && lowercase(#[trigger] parses@[i].specs@[k].spec@) == key
                    && (forall|j: int| 0 <= j < k ==> lowercase(#[trigger] parses@[i].specs@[j].spec@) != key)
                    && parses@[i].specs@[k].best_line is Some
                implies (fflogs_answer(job@, server@, (first.character.name@, first.character.id), pv)
                    matches Outcome::Success(Some(ReplyValue::Embed(e))) && e.fields.contains(
                    FieldValue {
                        name: parses@[i].name@,
                        value: parses@[i].specs@[k].best_line->0@,
                        inline: false,
                    },
                )) by {
                let specs = pv[i].specs;
                assert(pv[i] == parses@[i]@);
                assert(specs[k] == parses@[i].specs@[k]@);
                assert forall|j: int| 0 <= j < k implies lowercase(#[trigger] specs[j].spec) != key by {
                    assert(specs[j] == parses@[i].specs@[j]@);
                }
                lemma_spec_for_first_match(specs, key, k);
                lemma_parse_fields_contain(pv, key, i);
                let x = FieldValue {
                    name: parses@[i].name@,
                    value: parses@[i].specs@[k].best_line->0@,
                    inline: false,
                };
                let t = parse_fields(pv, key);
                let w = choose|w: int| 0 <= w < t.len() && t[w] == x;
                let head = seq![
                    FieldValue { name: "Job"@, value: job@, inline: true },
                    FieldValue { name: "Server"@, value: server@, inline: true },
                ];
                assert((head + t)[w + 2] == x);
            }
        }
        let lower = to_lowercase(job);
        proof {
            reveal_strlit(" ");
            reveal_strlit("");
            assert(""@ == Seq::<char>::empty());
        }
        let key = replace_text(lower.as_str(), " ", "");
        assert(key@ == job_key(job@));
        let ghost pv = parse_values(parses@);
        let mut fields: Vec<EmbedField> = Vec::new();
        let mut i: usize = 0;
        while i < parses.len()
            invariant
                i <= parses@.len(),
                pv == parse_values(parses@),
                key@ == job_key(job@),
                fields@.map_values(|f: EmbedField| f@) == parse_fields(pv.take(i as int), key@),
            decreases parses@.len() - i,
        {
            let p = &parses[i];
            let ghost specs = p@.specs;
            let mut j: usize = 0;
            assert(specs.skip(0) == specs);
            while j < p.specs.len() && !same_text(to_lowercase(p.specs[j].spec.as_str()).as_str(), key.as_str())
                invariant
                    j <= p.specs@.len(),
                    specs == p.specs@.map_values(|s: SpecSummary| s@),
                    spec_for(specs, key@) == spec_for(specs.skip(j as int), key@),
                decreases p.specs@.len() - j,
            {
                assert(specs.skip(j as int).drop_first() == specs.skip(j + 1));
                assert(specs.skip(j as int)[0] == p.specs@[j as int]@);
                j = j + 1;
            }
            let ghost before = fields@.map_values(|f: EmbedField| f@);
            proof {
                assert(pv.take(i + 1).drop_last() == pv.take(i as int));
                assert(pv.take(i + 1).last() == p@);
            }
            if j < p.specs.len() {
                assert(specs.skip(j as int)[0] == p.specs@[j as int]@);
                match &p.specs[j].best_line {
                    Some(line) => {
                        let f = EmbedField { name: p.name.clone(), value: line.clone(), inline: false };
                        fields.push(f);
                        assert(fields@.map_values(|f: EmbedField| f@) == before.push(f@));
                    },
                    None => {},
                }
            } else {
                assert(specs.skip(j as int).len() == 0);
            }
            i = i + 1;
        }
        assert(pv.take(parses@.len() as int) == pv);
        if fields.len() == 0 {
            return crate::reply::success_with("No parses for that job.".to_owned());
        }
        let mut all: Vec<EmbedField> = Vec::new();
        all.push(EmbedField { name: "Job".to_owned(), value: job.to_owned(), inline: true });
        all.push(EmbedField { name: "Server".to_owned(), value: server.to_owned(), inline: true });
        let ghost head = all@.map_values(|f: EmbedField| f@);
        assert(head == seq![
            FieldValue { name: "Job"@, value: job@, inline: true },
            FieldValue { name: "Server"@, value: server@, inline: true },
        ]);
        let ghost tail = fields@.map_values(|f: EmbedField| f@);
        all.append(&mut fields);
        assert(all@.map_values(|f: EmbedField| f@) == head + tail);
        let mut url = String::new();
        push_str(&mut url, "https://www.fflogs.com/character/id/");
        push_u64(&mut url, first.character.id);
        let embed = Embed {
            title: Some(first.character.name.clone()),
            description: None,
            url: Some(url),
            fields: all,
            footer: None,
        };
        assert(tail == parse_fields(pv, key@));
        assert(embed@.fields == head + tail);
        Ok(CommandSuccess { message: Some(Reply::Embed(embed)) })
    }
}

} // verus!
