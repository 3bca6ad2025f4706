//! The template renderer: turning a configuration record into the
//! fixed-format text block.

use vstd::prelude::*;
use vstd::string::StringExecFns;

use crate::config::ConfigRecord;

verus! {

/// The sequences in `items`, joined by a single `sep` between neighbours.
pub open spec fn join_with(items: Seq<Seq<char>>, sep: char) -> Seq<char>
    decreases items.len(),
{
    if items.len() == 0 {
        Seq::empty()
    } else if items.len() == 1 {
        items[0]
    } else {
        items[0] + seq![sep] + join_with(items.drop_first(), sep)
    }
}

/// Appending one more item extends the joined sequence by a separator and
/// that item (or is the item itself when nothing came before).
pub proof fn lemma_join_with_push(items: Seq<Seq<char>>, x: Seq<char>, sep: char)
    ensures
        join_with(items.push(x), sep) == if items.len() == 0 {
            x
        } else {
            join_with(items, sep) + seq![sep] + x
        },
    decreases items.len(),
{
    if items.len() == 0 {
        assert(items.push(x) =~= seq![x]);
    } else {
        assert(items.push(x).drop_first() =~= items.drop_first().push(x));
        lemma_join_with_push(items.drop_first(), x, sep);
        assert(join_with(items.push(x), sep) =~= join_with(items, sep) + seq![sep] + x);
    }
}

/// The `Host` line: the aliases joined by single spaces.
pub open spec fn host_line(r: ConfigRecord) -> Seq<char> {
    "Host "@ + join_with(r.host.deep_view(), ' ')
}

/// The line emitted for an optional field: the field's fixed prefix followed
/// by its value when the field is present, and no line at all when absent.
pub open spec fn option_lines(prefix: Seq<char>, v: Option<String>) -> Seq<Seq<char>> {
    match v {
        Some(s) => seq![prefix + s@],
        None => Seq::empty(),
    }
}

/// The line emitted when compression is enabled.
pub open spec fn compression_line() -> Seq<char> {
    "    Compression yes"@
}

/// The rendered block as a sequence of lines, in the fixed order: the `Host`
/// line first, then one line for each optional field that is present.
pub open spec fn render_lines(r: ConfigRecord) -> Seq<Seq<char>> {
    seq![host_line(r)] + option_lines("    HostName "@, r.hostname) + option_lines(
        "    User "@,
        r.user,
    ) + option_lines("    Port "@, r.port) + option_lines("    IdentityFile "@, r.identity_file)
        + if r.compression {
        seq![compression_line()]
    } else {
        Seq::<Seq<char>>::empty()
    }
}

/// The rendered block: the lines joined by single newlines, with no trailing
/// newline.
pub open spec fn spec_render(r: ConfigRecord) -> Seq<char> {
    join_with(render_lines(r), '\n')
}

/// True when some line of `lines` starts with `prefix`.
pub open spec fn has_line_with_prefix(lines: Seq<Seq<char>>, prefix: Seq<char>) -> bool {
    exists|i: int| 0 <= i < lines.len() && prefix.is_prefix_of(#[trigger] lines[i])
}

/// A sequence that differs from `p` at some position before `p` ends cannot
/// have `p` as a prefix.
proof fn lemma_prefix_differs(p: Seq<char>, x: Seq<char>, k: int)
    requires
        0 <= k < p.len(),
        k < x.len(),
        p[k] != x[k],
    ensures
        !p.is_prefix_of(x),
{
    if p.is_prefix_of(x) {
        assert(p[k] == x.subrange(0, p.len() as int)[k]);
    }
}

/// Every sequence is a prefix of itself followed by anything.
proof fn lemma_prefix_of_concat(p: Seq<char>, b: Seq<char>)
    ensures
        p.is_prefix_of(p + b),
{
    assert((p + b).subrange(0, p.len() as int) =~= p);
}

/// With every optional field present and compression enabled, the block has
/// exactly six lines, in the fixed order: Host, HostName, User, Port,
/// IdentityFile, Compression.
pub proof fn lemma_render_order(r: ConfigRecord)
    requires
        r.hostname is Some,
        r.user is Some,
        r.port is Some,
        r.identity_file is Some,
        r.compression,
    ensures
        render_lines(r) =~= seq![
            host_line(r),
            "    HostName "@ + r.hostname->0@,
            "    User "@ + r.user->0@,
            "    Port "@ + r.port->0@,
            "    IdentityFile "@ + r.identity_file->0@,
            compression_line(),
        ],
{
}

/// The first line of every rendered block is the Host line: `Host ` followed
/// by the aliases joined by single spaces.
pub proof fn lemma_host_line_first(r: ConfigRecord)
    ensures
        render_lines(r).len() >= 1,
        render_lines(r)[0] == "Host "@ + join_with(r.host.deep_view(), ' '),
{
}

/// The Compression line appears in the rendered block exactly when
/// compression is enabled; with compression disabled no line equals it.
pub proof fn lemma_compression_line_iff(r: ConfigRecord)
    ensures
        render_lines(r).contains(compression_line()) <==> r.compression,
{
    reveal_strlit("Host ");
    reveal_strlit("    HostName ");
    reveal_strlit("    User ");
    reveal_strlit("    Port ");
    reveal_strlit("    IdentityFile ");
    reveal_strlit("    Compression yes");
    let ls = render_lines(r);
    if r.compression {
        assert(ls[ls.len() - 1] == compression_line());
        assert(ls.contains(compression_line()));
    } else {
        assert forall|i: int| 0 <= i < ls.len() implies ls[i] != compression_line() by {
            lemma_prefix_differs(compression_line(), host_line(r), 0);
            if r.hostname is Some {
                lemma_prefix_differs(compression_line(), "    HostName "@ + r.hostname->0@, 4);
            }
            if r.user is Some {
                lemma_prefix_differs(compression_line(), "    User "@ + r.user->0@, 4);
            }
            if r.port is Some {
                lemma_prefix_differs(compression_line(), "    Port "@ + r.port->0@, 4);
            }
            if r.identity_file is Some {
                lemma_prefix_differs(
                    compression_line(),
                    "    IdentityFile "@ + r.identity_file->0@,
                    4,
                );
            }
            if ls[i] == compression_line() {
                assert(compression_line() =~= ls[i].subrange(0, compression_line().len() as int));
                assert(compression_line().is_prefix_of(ls[i]));
            }
        }
    }
}

/// A HostName line appears in the rendered block exactly when a hostname is
/// present; with the hostname absent no line starts with `    HostName `.
pub proof fn lemma_hostname_line_iff(r: ConfigRecord)
    ensures
        has_line_with_prefix(render_lines(r), "    HostName "@) <==> r.hostname is Some,
{
    reveal_strlit("Host ");
    reveal_strlit("    HostName ");
    reveal_strlit("    User ");
    reveal_strlit("    Port ");
    reveal_strlit("    IdentityFile ");
    reveal_strlit("    Compression yes");
    let ls = render_lines(r);
    if r.hostname is Some {
        lemma_prefix_of_concat("    HostName "@, r.hostname->0@);
        assert(ls[1] == "    HostName "@ + r.hostname->0@);
        assert("    HostName "@.is_prefix_of(ls[1]));
    } else {
        assert forall|i: int| 0 <= i < ls.len() implies !"    HostName "@.is_prefix_of(ls[i]) by {
            lemma_prefix_differs("    HostName "@, host_line(r), 0);
            if r.user is Some {
                lemma_prefix_differs("    HostName "@, "    User "@ + r.user->0@, 4);
            }
            if r.port is Some {
                lemma_prefix_differs("    HostName "@, "    Port "@ + r.port->0@, 4);
            }
            if r.identity_file is Some {
                lemma_prefix_differs(
                    "    HostName "@,
                    "    IdentityFile "@ + r.identity_file->0@,
                    4,
                );
            }
            if r.compression {
                lemma_prefix_differs("    HostName "@, compression_line(), 4);
            }
        }
    }
}

/// A User line appears in the rendered block exactly when a user is present;
/// with the user absent no line starts with `    User `.
pub proof fn lemma_user_line_iff(r: ConfigRecord)
    ensures
        has_line_with_prefix(render_lines(r), "    User "@) <==> r.user is Some,
{
    reveal_strlit("Host ");
    reveal_strlit("    HostName ");
    reveal_strlit("    User ");
    reveal_strlit("    Port ");
    reveal_strlit("    IdentityFile ");
    reveal_strlit("    Compression yes");
    let ls = render_lines(r);
    if r.user is Some {
        lemma_prefix_of_concat("    User "@, r.user->0@);
        if r.hostname is Some {
            assert(ls[2] == "    User "@ + r.user->0@);
            assert("    User "@.is_prefix_of(ls[2]));
        } else {
            assert(ls[1] == "    User "@ + r.user->0@);
            assert("    User "@.is_prefix_of(ls[1]));
        }
    } else {
        assert forall|i: int| 0 <= i < ls.len() implies !"    User "@.is_prefix_of(ls[i]) by {
            lemma_prefix_differs("    User "@, host_line(r), 0);
            if r.hostname is Some {
                lemma_prefix_differs("    User "@, "    HostName "@ + r.hostname->0@, 4);
            }
            if r.port is Some {
                lemma_prefix_differs("    User "@, "    Port "@ + r.port->0@, 4);
            }
            if r.identity_file is Some {
                lemma_prefix_differs("    User "@, "    IdentityFile "@ + r.identity_file->0@, 4);
            }
            if r.compression {
                lemma_prefix_differs("    User "@, compression_line(), 4);
            }
        }
    }
}

/// Render the record into the fixed-format configuration block.
pub fn render_template(record: &ConfigRecord) -> (out: String)
    requires
        record.wf(),
    ensures
        out@ == spec_render(*record),
{
    let ghost hosts: Seq<Seq<char>> = record.host.deep_view();
    let mut out = String::from_str("Host ");
    let mut i: usize = 0;
    while i < record.host.len()
        invariant
            record.wf(),
            hosts == record.host.deep_view(),
            i <= record.host@.len(),
            out@ == "Host "@ + join_with(hosts.take(i as int), ' '),
        decreases record.host@.len() - i,
    {
        if i > 0 {
            out.append(" ");
        }
        out.append(record.host[i].as_str());
        proof {
            reveal_strlit(" ");
            assert(" "@ =~= seq![' ']);
            assert(hosts.take(i + 1) =~= hosts.take(i as int).push(hosts[i as int]));
            lemma_join_with_push(hosts.take(i as int), hosts[i as int], ' ');
            assert(out@ =~= "Host "@ + join_with(hosts.take(i + 1), ' '));
        }
        i += 1;
    }
    let ghost mut lines: Seq<Seq<char>> = seq![host_line(*record)];
    proof {
        assert(hosts.take(hosts.len() as int) =~= hosts);
        assert(out@ =~= join_with(lines, '\n'));
        reveal_strlit("\n");
        assert("\n"@ =~= seq!['\n']);
    }
    if let Some(h) = &record.hostname {
        out.append("\n");
        out.append("    HostName ");
        out.append(h.as_str());
        proof {
            lemma_join_with_push(lines, "    HostName "@ + h@, '\n');
            lines = lines.push("    HostName "@ + h@);
            assert(out@ =~= join_with(lines, '\n'));
        }
    }
    if let Some(u) = &record.user {
        out.append("\n");
        out.append("    User ");
        out.append(u.as_str());
        proof {
            lemma_join_with_push(lines, "    User "@ + u@, '\n');
            lines = lines.push("    User "@ + u@);
            assert(out@ =~= join_with(lines, '\n'));
        }
    }
    if let Some(p) = &record.port {
        out.append("\n");
        out.append("    Port ");
        out.append(p.as_str());
        proof {
            lemma_join_with_push(lines, "    Port "@ + p@, '\n');
            lines = lines.push("    Port "@ + p@);
            assert(out@ =~= join_with(lines, '\n'));
        }
    }
    if let Some(f) = &record.identity_file {
        out.append("\n");
        out.append("    IdentityFile ");
        out.append(f.as_str());
        proof {
            lemma_join_with_push(lines, "    IdentityFile "@ + f@, '\n');
            lines = lines.push("    IdentityFile "@ + f@);
            assert(out@ =~= join_with(lines, '\n'));
        }
    }
    if record.compression {
        out.append("\n");
        out.append("    Compression yes");
        proof {
            lemma_join_with_push(lines, compression_line(), '\n');
            lines = lines.push(compression_line());
            assert(out@ =~= join_with(lines, '\n'));
        }
    }
    proof {
        assert(lines =~= render_lines(*record));
    }
    out
}

} // verus!
