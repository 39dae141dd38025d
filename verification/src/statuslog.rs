//! The service log as the window reads it: the `bridge-status` lines the
//! service writes, and the latest value each key reports.
use vstd::prelude::*;
use vstd::string::StringExecFns;

use vstd::string::StrSliceExecFns;

use crate::text::{
    lemma_first_index_of_append, lemma_split_concat,
    char_is_whitespace, chars_of, first_index_of, is_whitespace, lemma_first_index_of, matches_at,
    range_holds, split_ranges, split_spec,
};

verus! {

broadcast use vstd::string::group_string_axioms;

/// `line` without one trailing carriage return.
pub open spec fn strip_cr(line: Seq<char>) -> Seq<char> {
    if line.len() > 0 && line.last() == '\r' {
        line.drop_last()
    } else {
        line
    }
}

/// The lines of a text (what `str::lines` yields): pieces between newlines,
/// a carriage return before a newline dropped, and no empty last line.
pub open spec fn lines_spec(s: Seq<char>) -> Seq<Seq<char>> {
    let pieces = split_spec(s, '\n');
    let body = pieces.drop_last().map_values(|p: Seq<char>| strip_cr(p));
    if pieces.last().len() == 0 {
        body
    } else {
        body.push(pieces.last())
    }
}

/// The end of the run of non-whitespace starting at `i`.
pub open spec fn end_of_field(s: Seq<char>, i: int) -> int
    decreases s.len() - i,
{
    if i < 0 || i >= s.len() || is_whitespace(s[i]) {
        i
    } else {
        end_of_field(s, i + 1)
    }
}

/// A field ends within the text and after its first character.
pub proof fn lemma_end_of_field(s: Seq<char>, i: int)
    requires
        0 <= i <= s.len(),
    ensures
        i <= end_of_field(s, i) <= s.len(),
        i < s.len() && !is_whitespace(s[i]) ==> end_of_field(s, i) > i,
    decreases s.len() - i,
{
    if i < s.len() && !is_whitespace(s[i]) {
        lemma_end_of_field(s, i + 1);
    }
}

/// The whitespace-separated fields of `s` from `i` on (what
/// `str::split_whitespace` yields).
pub open spec fn fields_from(s: Seq<char>, i: int) -> Seq<Seq<char>>
    decreases s.len() - i,
{
    if i < 0 || i >= s.len() {
        seq![]
    } else if is_whitespace(s[i]) {
        fields_from(s, i + 1)
    } else {
        let e = end_of_field(s, i);
        if i < e <= s.len() {
            seq![s.subrange(i, e)] + fields_from(s, e)
        } else {
            seq![]
        }
    }
}

/// The value of a `name=value` field whose name is `key`.
pub open spec fn field_value(field: Seq<char>, key: Seq<char>) -> Option<Seq<char>> {
    match first_index_of(field, '=') {
        Some(k) => if 0 <= k < field.len() && field.subrange(0, k) == key {
            Some(field.subrange(k + 1, field.len() as int))
        } else {
            None
        },
        None => None,
    }
}

/// The value of the first field named `key`.
pub open spec fn find_field(fields: Seq<Seq<char>>, key: Seq<char>) -> Option<Seq<char>>
    decreases fields.len(),
{
    if fields.len() == 0 {
        None
    } else {
        match field_value(fields[0], key) {
            Some(v) => Some(v),
            None => find_field(fields.drop_first(), key),
        }
    }
}

/// The start of every status line of the service log.
pub open spec fn status_prefix() -> Seq<char> {
    "bridge-status "@
}

/// The value a line reports for `key`, if it is a status line with that key.
pub open spec fn line_status(line: Seq<char>, key: Seq<char>) -> Option<Seq<char>> {
    if status_prefix().is_prefix_of(line) {
        find_field(fields_from(line, 0), key)
    } else {
        None
    }
}

/// The value for `key` on the latest status line that has one.
pub open spec fn last_status_in(lines: Seq<Seq<char>>, key: Seq<char>) -> Option<Seq<char>>
    decreases lines.len(),
{
    if lines.len() == 0 {
        None
    } else {
        match line_status(lines.last(), key) {
            Some(v) => Some(v),
            None => last_status_in(lines.drop_last(), key),
        }
    }
}

/// The latest value the service log reports for `key`.
pub open spec fn last_status_spec(log: Seq<char>, key: Seq<char>) -> Option<Seq<char>> {
    last_status_in(lines_spec(log), key)
}

/// The word a status line uses for a connection.
pub open spec fn connection_word(connected: bool) -> Seq<char> {
    if connected {
        "connected"@
    } else {
        "disconnected"@
    }
}

/// The status line the service writes when the plugin connects or goes away.
pub open spec fn plugin_status_line_spec(connected: bool) -> Seq<char> {
    status_prefix() + "plugin="@ + connection_word(connected)
}

/// The status line the service writes when the controllers change.
pub open spec fn joycon_status_line_spec(left: bool, right: bool) -> Seq<char> {
    status_prefix() + "joycon-left="@ + connection_word(left) + " joycon-right="@ + connection_word(right)
}

/// The word for a connection.
fn connection_text(connected: bool) -> (r: &'static str)
    ensures
        r@ == connection_word(connected),
{
    if connected {
        "connected"
    } else {
        "disconnected"
    }
}

/// The status line for the plugin connection.
pub fn plugin_status_line(connected: bool) -> (r: String)
    ensures
        r@ == plugin_status_line_spec(connected),
{
    let mut line = "bridge-status ".to_owned();
    line.append("plugin=");
    line.append(connection_text(connected));
    line
}

/// The status line for the two controllers.
pub fn joycon_status_line(left: bool, right: bool) -> (r: String)
    ensures
        r@ == joycon_status_line_spec(left, right),
{
    let mut line = "bridge-status ".to_owned();
    line.append("joycon-left=");
    line.append(connection_text(left));
    line.append(" joycon-right=");
    line.append(connection_text(right));
    line
}

/// A line without newline, followed by one, is one piece and an empty one.
proof fn lemma_split_line(line: Seq<char>)
    requires
        forall|i: int| 0 <= i < line.len() ==> line[i] != '\n',
    ensures
        split_spec(line + seq!['\n'], '\n') == seq![line, Seq::<char>::empty()],
{
    lemma_first_index_of(line, '\n');
    if let Some(k) = first_index_of(line, '\n') {
        assert(line[k] == '\n');
    }
    lemma_first_index_of_append(line, seq!['\n'], '\n');
    assert(first_index_of(seq!['\n'], '\n') == Some(0int));
    let s = line + seq!['\n'];
    assert(s.subrange(0, line.len() as int) =~= line);
    let rest = s.subrange(line.len() as int + 1, s.len() as int);
    assert(rest =~= Seq::<char>::empty());
    assert(first_index_of(rest, '\n') is None);
    assert(first_index_of(s, '\n') == Some(line.len() as int));
    assert(split_spec(rest, '\n') == seq![rest]);
    assert(split_spec(s, '\n') == seq![line] + seq![rest]);
    assert(seq![line] + seq![rest] =~= seq![line, Seq::<char>::empty()]);
}

/// The last line of a log that ends with `line` and a newline is `line`.
proof fn lemma_lines_last(prior: Seq<char>, line: Seq<char>)
    requires
        prior.len() == 0 || prior.last() == '\n',
        forall|i: int| 0 <= i < line.len() ==> line[i] != '\n',
        line.len() > 0,
        line.last() != '\r',
    ensures
        lines_spec(prior + line + seq!['\n']).len() > 0,
        lines_spec(prior + line + seq!['\n']).last() == line,
{
    let s = prior + line + seq!['\n'];
    lemma_split_line(line);
    let tail = seq![line, Seq::<char>::empty()];
    let pieces = split_spec(s, '\n');
    if prior.len() == 0 {
        assert(s =~= line + seq!['\n']);
        assert(pieces == tail);
    } else {
        assert(s =~= prior + (line + seq!['\n']));
        lemma_split_concat(prior, line + seq!['\n'], '\n');
        assert(pieces == split_spec(prior, '\n').drop_last() + tail);
    }
    assert(pieces.last().len() == 0);
    assert(pieces.drop_last().last() == line);
    let body = pieces.drop_last().map_values(|p: Seq<char>| strip_cr(p));
    assert(lines_spec(s) == body);
    assert(body.last() == strip_cr(line));
}

/// A run of non-whitespace from `i` to `j`, ended by whitespace or the end of
/// the text, is one field.
proof fn lemma_end_of_field_word(s: Seq<char>, i: int, j: int)
    requires
        0 <= i <= j <= s.len(),
        forall|k: int| i <= k < j ==> !is_whitespace(#[trigger] s[k]),
        j == s.len() || is_whitespace(s[j]),
    ensures
        end_of_field(s, i) == j,
    decreases j - i,
{
    if i < j {
        lemma_end_of_field_word(s, i + 1, j);
    }
}

/// Fields are found the same way after a prefix.
proof fn lemma_fields_shift(x: Seq<char>, y: Seq<char>, i: int)
    requires
        0 <= i,
    ensures
        fields_from(x + y, x.len() + i) == fields_from(y, i),
    decreases y.len() - i,
{
    let s = x + y;
    let n = x.len() as int;
    if i < y.len() {
        assert(s[n + i] == y[i]);
        if is_whitespace(y[i]) {
            lemma_fields_shift(x, y, i + 1);
        } else {
            lemma_end_of_field_shift(x, y, i);
            lemma_end_of_field(y, i);
            let e = end_of_field(y, i);
            assert(s.subrange(n + i, n + e) =~= y.subrange(i, e));
            lemma_fields_shift(x, y, e);
        }
    }
}

/// Field ends are found the same way after a prefix.
proof fn lemma_end_of_field_shift(x: Seq<char>, y: Seq<char>, i: int)
    requires
        0 <= i,
    ensures
        end_of_field(x + y, x.len() + i) == x.len() + end_of_field(y, i),
    decreases y.len() - i,
{
    if i < y.len() {
        assert((x + y)[x.len() + i] == y[i]);
        if !is_whitespace(y[i]) {
            lemma_end_of_field_shift(x, y, i + 1);
        }
    }
}

/// A word without whitespace followed by a space is the first field.
proof fn lemma_fields_of_word(w: Seq<char>, rest: Seq<char>)
    requires
        w.len() > 0,
        forall|k: int| 0 <= k < w.len() ==> !is_whitespace(#[trigger] w[k]),
    ensures
        fields_from(w + seq![' '] + rest, 0) == seq![w] + fields_from(rest, 0),
        fields_from(w, 0) == seq![w],
{
    let s = w + seq![' '] + rest;
    let n = w.len() as int;
    assert forall|k: int| 0 <= k < n implies !is_whitespace(#[trigger] s[k]) by {
        assert(s[k] == w[k]);
    }
    assert(s[n] == ' ');
    lemma_end_of_field_word(s, 0, n);
    assert(s.subrange(0, n) =~= w);
    assert(is_whitespace(s[n]));
    assert(fields_from(s, n) == fields_from(s, n + 1));
    assert(s =~= (w + seq![' ']) + rest);
    lemma_fields_shift(w + seq![' '], rest, 0);
    lemma_end_of_field_word(w, 0, n);
    assert(w.subrange(0, n) =~= w);
    assert(fields_from(w, n) == Seq::<Seq<char>>::empty());
}

/// A `key=value` field whose key has no `=` gives its value for that key.
proof fn lemma_field_value_of(key: Seq<char>, value: Seq<char>)
    requires
        forall|k: int| 0 <= k < key.len() ==> key[k] != '=',
    ensures
        field_value(key + seq!['='] + value, key) == Some(value),
        forall|other: Seq<char>| other.len() != key.len() ==> field_value(key + seq!['='] + value, other) is None,
{
    let f = key + seq!['='] + value;
    lemma_first_index_of(key, '=');
    if let Some(k) = first_index_of(key, '=') {
        assert(key[k] == '=');
    }
    assert(f =~= key + (seq!['='] + value));
    lemma_first_index_of_append(key, seq!['='] + value, '=');
    assert(first_index_of(seq!['='] + value, '=') == Some(0int));
    assert(f.subrange(0, key.len() as int) =~= key);
    assert(f.subrange(key.len() as int + 1, f.len() as int) =~= value);
}

/// A text of plain ASCII word characters: no whitespace, no `=`, no line break.
pub open spec fn plain_word(s: Seq<char>) -> bool {
    forall|k: int| 0 <= k < s.len() ==> ('a' <= #[trigger] s[k] <= 'z' || s[k] == '-')
}

/// The words of a status line are plain.
proof fn lemma_status_words_plain()
    ensures
        plain_word("bridge-status"@),
        plain_word("plugin"@),
        plain_word("joycon-left"@),
        plain_word("joycon-right"@),
        plain_word(connection_word(true)),
        plain_word(connection_word(false)),
        "plugin"@.len() == 6,
        "joycon-left"@.len() == 11,
        "joycon-right"@.len() == 12,
        connection_word(true).len() > 0,
        connection_word(false).len() > 0,
{
    reveal_strlit("bridge-status");
    reveal_strlit("plugin");
    reveal_strlit("joycon-left");
    reveal_strlit("joycon-right");
    reveal_strlit("connected");
    reveal_strlit("disconnected");
}

/// A plain word holds no whitespace, no `=`, no line break, and does not end
/// with a carriage return.
proof fn lemma_plain_word(s: Seq<char>)
    requires
        plain_word(s),
    ensures
        forall|k: int| 0 <= k < s.len() ==> !is_whitespace(#[trigger] s[k]),
        forall|k: int| 0 <= k < s.len() ==> #[trigger] s[k] != '=' && s[k] != '\n' && s[k] != '\r',
{
    assert forall|k: int| 0 <= k < s.len() implies !is_whitespace(#[trigger] s[k]) by {
        assert('a' <= s[k] <= 'z' || s[k] == '-');
    }
}

/// A `key=word` field of plain words holds no whitespace and no line break.
proof fn lemma_plain_field(key: Seq<char>, word: Seq<char>)
    requires
        plain_word(key),
        plain_word(word),
    ensures
        forall|k: int| 0 <= k < (key + seq!['='] + word).len() ==> !is_whitespace(#[trigger] (key + seq!['='] + word)[k]),
        forall|k: int| 0 <= k < (key + seq!['='] + word).len() ==> #[trigger] (key + seq!['='] + word)[k] != '\n',
{
    lemma_plain_word(key);
    lemma_plain_word(word);
    let f = key + seq!['='] + word;
    assert forall|k: int| 0 <= k < f.len() implies !is_whitespace(#[trigger] f[k]) && f[k] != '\n' by {
        if k < key.len() {
            assert(f[k] == key[k]);
        } else if k == key.len() {
            assert(f[k] == '=');
        } else {
            assert(f[k] == word[k - key.len() - 1]);
        }
    }
}

/// The fields of a status line made of the prefix word and `key=word` fields.
proof fn lemma_line_of_fields(head: Seq<char>, fields: Seq<Seq<char>>)
    requires
        head == "bridge-status"@,
        fields.len() >= 1,
        forall|i: int| 0 <= i < fields.len() ==> #[trigger] fields[i].len() > 0,
        forall|i: int, k: int| 0 <= i < fields.len() && 0 <= k < fields[i].len() ==> !is_whitespace(
            #[trigger] fields[i][k],
        ) && fields[i][k] != '\n',
    ensures
        ({
            let line = head + seq![' '] + join_fields(fields);
            &&& fields_from(line, 0) == seq![head] + fields
            &&& forall|k: int| 0 <= k < line.len() ==> #[trigger] line[k] != '\n'
            &&& line.last() == fields.last().last()
            &&& status_prefix().is_prefix_of(line)
        }),
    decreases fields.len(),
{
    reveal_strlit("bridge-status");
    reveal_strlit("bridge-status ");
    lemma_status_words_plain();
    lemma_plain_word(head);
    lemma_join_fields(fields);
    let line = head + seq![' '] + join_fields(fields);
    lemma_fields_of_word(head, join_fields(fields));
    assert forall|k: int| 0 <= k < line.len() implies #[trigger] line[k] != '\n' by {
        if k < head.len() {
            assert(line[k] == head[k]);
        } else if k > head.len() {
            assert(line[k] == join_fields(fields)[k - head.len() - 1]);
        }
    }
    assert(line.subrange(0, status_prefix().len() as int) =~= status_prefix());
}

/// Fields joined by single spaces.
pub open spec fn join_fields(fields: Seq<Seq<char>>) -> Seq<char>
    decreases fields.len(),
{
    if fields.len() <= 1 {
        if fields.len() == 1 {
            fields[0]
        } else {
            seq![]
        }
    } else {
        fields[0] + seq![' '] + join_fields(fields.drop_first())
    }
}

/// Joined fields of words without whitespace split back into those fields.
proof fn lemma_join_fields(fields: Seq<Seq<char>>)
    requires
        fields.len() >= 1,
        forall|i: int| 0 <= i < fields.len() ==> #[trigger] fields[i].len() > 0,
        forall|i: int, k: int| 0 <= i < fields.len() && 0 <= k < fields[i].len() ==> !is_whitespace(
            #[trigger] fields[i][k],
        ) && fields[i][k] != '\n',
    ensures
        fields_from(join_fields(fields), 0) == fields,
        forall|k: int| 0 <= k < join_fields(fields).len() ==> #[trigger] join_fields(fields)[k] != '\n',
        join_fields(fields).len() > 0,
        join_fields(fields).last() == fields.last().last(),
    decreases fields.len(),
{
    let w = fields[0];
    assert forall|k: int| 0 <= k < w.len() implies !is_whitespace(#[trigger] w[k]) by {
        assert(!is_whitespace(fields[0][k]));
    }
    if fields.len() == 1 {
        lemma_fields_of_word(w, seq![]);
        assert(fields =~= seq![w]);
        assert forall|k: int| 0 <= k < w.len() implies #[trigger] w[k] != '\n' by {
            assert(fields[0][k] != '\n');
        }
    } else {
        let rest = fields.drop_first();
        assert forall|i: int, k: int| 0 <= i < rest.len() && 0 <= k < rest[i].len() implies !is_whitespace(
            #[trigger] rest[i][k],
        ) && rest[i][k] != '\n' by {
            assert(rest[i] == fields[i + 1]);
        }
        assert forall|i: int| 0 <= i < rest.len() implies #[trigger] rest[i].len() > 0 by {
            assert(rest[i] == fields[i + 1]);
        }
        lemma_join_fields(rest);
        lemma_fields_of_word(w, join_fields(rest));
        assert(seq![w] + rest =~= fields);
        let j = join_fields(fields);
        assert forall|k: int| 0 <= k < j.len() implies #[trigger] j[k] != '\n' by {
            if k < w.len() {
                assert(j[k] == w[k]);
                assert(fields[0][k] != '\n');
            } else if k > w.len() {
                assert(j[k] == join_fields(rest)[k - w.len() - 1]);
            }
        }
        assert(rest.last() == fields.last());
    }
}

/// The status prefix word holds no `=`.
proof fn lemma_head_has_no_value(key: Seq<char>)
    ensures
        field_value("bridge-status"@, key) is None,
        status_prefix() == "bridge-status"@ + seq![' '],
{
    reveal_strlit("bridge-status");
    reveal_strlit("bridge-status ");
    let head = "bridge-status"@;
    lemma_status_words_plain();
    lemma_plain_word(head);
    lemma_first_index_of(head, '=');
    if let Some(k) = first_index_of(head, '=') {
        assert(head[k] == '=');
    }
    assert(status_prefix() =~= head + seq![' ']);
}

/// The plugin line is read back as the plugin's state.
proof fn lemma_plugin_line_read_back(prior: Seq<char>, plugin: bool)
    requires
        prior.len() == 0 || prior.last() == '\n',
    ensures
        last_status_spec(prior + plugin_status_line_spec(plugin) + seq!['\n'], "plugin"@) == Some(connection_word(plugin)),
{
    reveal_strlit("plugin=");
    reveal_strlit("plugin");
    lemma_status_words_plain();
    lemma_head_has_no_value("plugin"@);
    let head = "bridge-status"@;
    let pw = connection_word(plugin);
    let pf = "plugin"@ + seq!['='] + pw;
    lemma_plain_field("plugin"@, pw);
    let pfields = seq![pf];
    let pline = plugin_status_line_spec(plugin);
    assert(join_fields(pfields) == pf);
    assert(pline =~= head + seq![' '] + join_fields(pfields));
    lemma_line_of_fields(head, pfields);
    lemma_field_value_of("plugin"@, pw);
    assert((seq![head] + pfields).drop_first() =~= pfields);
    assert(pfields.drop_first() =~= Seq::<Seq<char>>::empty());
    assert(find_field(pfields, "plugin"@) == Some(pw));
    assert(find_field(seq![head] + pfields, "plugin"@) == Some(pw));
    assert(line_status(pline, "plugin"@) == Some(pw));
    lemma_plain_word(pw);
    lemma_lines_last(prior, pline);
}

/// The controller line is read back as each controller's state.
proof fn lemma_joycon_line_read_back(prior: Seq<char>, left: bool, right: bool)
    requires
        prior.len() == 0 || prior.last() == '\n',
    ensures
        last_status_spec(prior + joycon_status_line_spec(left, right) + seq!['\n'], "joycon-left"@) == Some(
            connection_word(left),
        ),
        last_status_spec(prior + joycon_status_line_spec(left, right) + seq!['\n'], "joycon-right"@) == Some(
            connection_word(right),
        ),
{
    reveal_strlit("joycon-left=");
    reveal_strlit("joycon-left");
    reveal_strlit(" joycon-right=");
    reveal_strlit("joycon-right");
    lemma_status_words_plain();
    lemma_head_has_no_value("joycon-left"@);
    lemma_head_has_no_value("joycon-right"@);
    let head = "bridge-status"@;
    let lw = connection_word(left);
    let rw = connection_word(right);
    let lf = "joycon-left"@ + seq!['='] + lw;
    let rf = "joycon-right"@ + seq!['='] + rw;
    lemma_plain_field("joycon-left"@, lw);
    lemma_plain_field("joycon-right"@, rw);
    let jfields = seq![lf, rf];
    let jline = joycon_status_line_spec(left, right);
    assert(jfields.drop_first() =~= seq![rf]);
    assert(join_fields(seq![rf]) == rf);
    assert(join_fields(jfields) == lf + seq![' '] + rf);
    assert(jline =~= head + seq![' '] + join_fields(jfields));
    assert forall|i: int, k: int| 0 <= i < jfields.len() && 0 <= k < jfields[i].len() implies !is_whitespace(
        #[trigger] jfields[i][k],
    ) && jfields[i][k] != '\n' by {
        if i == 0 {
            assert(jfields[i] == lf);
        } else {
            assert(jfields[i] == rf);
        }
    }
    lemma_line_of_fields(head, jfields);
    lemma_field_value_of("joycon-left"@, lw);
    lemma_field_value_of("joycon-right"@, rw);
    let all = seq![head] + jfields;
    assert(all.drop_first() =~= jfields);
    assert(seq![rf].drop_first() =~= Seq::<Seq<char>>::empty());
    assert(find_field(seq![rf], "joycon-right"@) == Some(rw));
    assert(find_field(jfields, "joycon-right"@) == Some(rw));
    assert(find_field(jfields, "joycon-left"@) == Some(lw));
    assert(find_field(all, "joycon-left"@) == Some(lw));
    assert(find_field(all, "joycon-right"@) == Some(rw));
    assert(line_status(jline, "joycon-left"@) == Some(lw));
    assert(line_status(jline, "joycon-right"@) == Some(rw));
    lemma_plain_word(rw);
    lemma_lines_last(prior, jline);
}

/// What the service writes as its latest status line is what the window
/// reads back: after any earlier log of whole lines, the plugin line gives
/// the plugin's state and the controller line gives each controller's state.
pub proof fn lemma_status_lines_read_back(prior: Seq<char>, left: bool, right: bool, plugin: bool)
    requires
        prior.len() == 0 || prior.last() == '\n',
    ensures
        last_status_spec(prior + plugin_status_line_spec(plugin) + seq!['\n'], "plugin"@) == Some(connection_word(plugin)),
        last_status_spec(prior + joycon_status_line_spec(left, right) + seq!['\n'], "joycon-left"@) == Some(
            connection_word(left),
        ),
        last_status_spec(prior + joycon_status_line_spec(left, right) + seq!['\n'], "joycon-right"@) == Some(
            connection_word(right),
        ),
{
    lemma_plugin_line_read_back(prior, plugin);
    lemma_joycon_line_read_back(prior, left, right);
}

/// The first index of `c` in `v[from..to]`.
fn find_in_range(v: &Vec<char>, from: usize, to: usize, c: char) -> (r: Option<usize>)
    requires
        from <= to <= v@.len(),
    ensures
        r matches Some(k) ==> from <= k < to && first_index_of(v@.subrange(from as int, to as int), c) == Some(k - from),
        r is None ==> first_index_of(v@.subrange(from as int, to as int), c) is None,
{
    let mut i = from;
    while i < to
        invariant
            from <= i <= to <= v@.len(),
            first_index_of(v@.subrange(from as int, to as int), c) == (match first_index_of(
                v@.subrange(i as int, to as int),
                c,
            ) {
                Some(k) => Some(k + i - from),
                None => None::<int>,
            }),
        decreases to - i,
    {
        assert(v@.subrange(i as int, to as int).drop_first() =~= v@.subrange(i + 1, to as int));
        if v[i] == c {
            return Some(i);
        }
        i = i + 1;
    }
    None
}

/// The value of the first field named `key` in the line `v[a..b]`, as a range of `v`.
fn find_field_in(v: &Vec<char>, a: usize, b: usize, key: &Vec<char>) -> (r: Option<(usize, usize)>)
    requires
        a <= b <= v@.len(),
    ensures
        match find_field(fields_from(v@.subrange(a as int, b as int), 0), key@) {
            Some(value) => r matches Some((s, e)) && a <= s <= e <= b && v@.subrange(s as int, e as int) == value,
            None => r is None,
        },
{
    let ghost line = v@.subrange(a as int, b as int);
    let mut i = a;
    while i < b
        invariant
            a <= i <= b <= v@.len(),
            line == v@.subrange(a as int, b as int),
            find_field(fields_from(line, 0), key@) == find_field(fields_from(line, i - a), key@),
        decreases b - i,
    {
        assert(line[i - a] == v@[i as int]);
        if char_is_whitespace(v[i]) {
            i = i + 1;
        } else {
            let mut j = i;
            while j < b && !char_is_whitespace(v[j])
                invariant
                    i <= j <= b <= v@.len(),
                    a <= i,
                    line == v@.subrange(a as int, b as int),
                    end_of_field(line, i - a) == end_of_field(line, j - a),
                decreases b - j,
            {
                assert(line[j - a] == v@[j as int]);
                j = j + 1;
            }
            proof {
                if j < b {
                    assert(line[j - a] == v@[j as int]);
                }
                lemma_end_of_field(line, i - a);
            }
            assert(end_of_field(line, i - a) == j - a);
            let ghost field = line.subrange(i - a, j - a);
            assert(field =~= v@.subrange(i as int, j as int));
            assert(fields_from(line, i - a) == seq![field] + fields_from(line, j - a));
            assert((seq![field] + fields_from(line, j - a)).drop_first() =~= fields_from(line, j - a));
            match find_in_range(v, i, j, '=') {
                Some(k) => {
                    let name_len = k - i;
                    if name_len == key.len() && matches_at(v, i, key) {
                        assert(field.subrange(0, k - i) =~= v@.subrange(i as int, k as int));
                        assert(field.subrange(k - i + 1, field.len() as int) =~= v@.subrange(k + 1, j as int));
                        return Some((k + 1, j));
                    }
                    assert(field.subrange(0, k - i) =~= v@.subrange(i as int, k as int));
                },
                None => {},
            }
            i = j;
        }
    }
    None
}

/// The status value in the line `v[a..b]`, as a range of `v`.
fn line_status_in(v: &Vec<char>, a: usize, b: usize, prefix: &Vec<char>, key: &Vec<char>) -> (r: Option<(usize, usize)>)
    requires
        a <= b <= v@.len(),
        prefix@ == status_prefix(),
    ensures
        match line_status(v@.subrange(a as int, b as int), key@) {
            Some(value) => r matches Some((s, e)) && a <= s <= e <= b && v@.subrange(s as int, e as int) == value,
            None => r is None,
        },
{
    let ghost line = v@.subrange(a as int, b as int);
    if b - a >= prefix.len() && matches_at(v, a, prefix) {
        assert(line.subrange(0, prefix@.len() as int) =~= v@.subrange(a as int, a + prefix@.len()));
        find_field_in(v, a, b, key)
    } else {
        assert(!status_prefix().is_prefix_of(line)) by {
            if prefix@.len() <= line.len() {
                assert(line.subrange(0, prefix@.len() as int) =~= v@.subrange(a as int, a + prefix@.len()));
            }
        }
        None
    }
}

/// The latest value the service log reports for `key`: status lines are
/// searched from the last one, their `name=value` fields from the first.
pub fn last_status<'a>(log: &'a str, key: &str) -> (r: Option<&'a str>)
    ensures
        match last_status_spec(log@, key@) {
            Some(value) => r matches Some(s) && s@ == value,
            None => r is None,
        },
{
    let chars = chars_of(log);
    let keyc = chars_of(key);
    let prefix = chars_of("bridge-status ");
    let ranges = split_ranges(&chars, '\n');
    let ghost pieces = split_spec(log@, '\n');
    let ghost lines = lines_spec(log@);
    let ghost body = pieces.drop_last().map_values(|p: Seq<char>| strip_cr(p));
    let count = ranges.len();
    assert(pieces.len() >= 1);
    let last = ranges[count - 1];
    assert(range_holds(chars@, ranges@[count - 1], pieces[count - 1], chars@.len() as int));
    if last.0 < last.1 {
        assert(lines == body.push(pieces.last()));
        assert(lines.drop_last() =~= body);
        match line_status_in(&chars, last.0, last.1, &prefix, &keyc) {
            Some((s, e)) => {
                return Some(log.substring_char(s, e));
            },
            None => {},
        }
    } else {
        assert(lines == body);
    }
    let mut k = count - 1;
    assert(body.subrange(0, k as int) =~= body);
    while k > 0
        invariant
            k < count == ranges@.len() == pieces.len(),
            body.len() == count - 1,
            chars@ == log@,
            prefix@ == status_prefix(),
            keyc@ == key@,
            body == pieces.drop_last().map_values(|p: Seq<char>| strip_cr(p)),
            forall|q: int| 0 <= q < ranges@.len() ==> range_holds(chars@, #[trigger] ranges@[q], pieces[q], chars@.len() as int),
            last_status_spec(log@, key@) == last_status_in(body.subrange(0, k as int), key@),
        decreases k,
    {
        let range = ranges[k - 1];
        assert(range_holds(chars@, ranges@[k - 1], pieces[k - 1], chars@.len() as int));
        let a = range.0;
        let mut b = range.1;
        if b > a && chars[b - 1] == '\r' {
            b = b - 1;
            assert(chars@.subrange(a as int, b as int) =~= pieces[k - 1].drop_last());
        }
        assert(chars@.subrange(a as int, b as int) == body[k - 1]);
        assert(body.subrange(0, k as int).drop_last() =~= body.subrange(0, k - 1));
        match line_status_in(&chars, a, b, &prefix, &keyc) {
            Some((s, e)) => {
                return Some(log.substring_char(s, e));
            },
            None => {},
        }
        k = k - 1;
    }
    None
}

} // verus!
