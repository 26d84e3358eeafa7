//! The entries of the selection list and the lines they are shown as.

use crate::config::{determined, Config, ConfigView};
use crate::dockercompose::{services_view, Service, ServicePort, ServiceView};
use crate::order::{
    lemma_sorted_unique_ascending, lemma_sorted_unique_by_content, sort_unique, sorted_unique,
    strictly_ascending,
};
use crate::text::{decimal, decimal_text, pad, padded};
use vstd::prelude::*;
use vstd::seq_lib::to_multiset_contains;
use vstd::string::*;

verus! {

/// One published port of one container, with the command resolved for it.
pub struct Entry {
    pub service: String,
    pub port: u16,
    pub state: String,
    pub exposed_port: u16,
    pub command: String,
}

/// An [`Entry`] as plain values.
pub struct EntryView {
    pub service: Seq<char>,
    pub port: u16,
    pub state: Seq<char>,
    pub exposed_port: u16,
    pub command: Seq<char>,
}

impl View for Entry {
    type V = EntryView;

    open spec fn view(&self) -> EntryView {
        EntryView {
            service: self.service@,
            port: self.port,
            state: self.state@,
            exposed_port: self.exposed_port,
            command: self.command@,
        }
    }
}

/// The entries of a list, each as plain values.
pub open spec fn entries_view(entries: Seq<Entry>) -> Seq<EntryView> {
    entries.map_values(|entry: Entry| entry@)
}

/// The entry of one port of a container under a configuration, where the
/// template of the port is determined.
pub open spec fn entry_of(config: ConfigView, service: ServiceView, port: ServicePort) -> EntryView {
    EntryView {
        service: service.service,
        port: port.port,
        state: service.state,
        exposed_port: port.exposed_port,
        command: config.render(service.service, port.port, port.exposed_port),
    }
}

/// The entries of a container, one for each of its ports, in their order.
pub open spec fn service_entries(config: ConfigView, service: ServiceView) -> Seq<EntryView> {
    Seq::new(service.ports.len(), |i: int| entry_of(config, service, service.ports[i]))
}

/// The entries of the containers, container after container, where the
/// templates of their ports are determined.
pub open spec fn resolved(config: ConfigView, services: Seq<ServiceView>) -> Seq<EntryView>
    decreases services.len(),
{
    if services.len() == 0 {
        Seq::empty()
    } else {
        resolved(config, services.drop_last()) + service_entries(config, services.last())
    }
}

/// `entry` can stand where `expected` is expected: it is for the same
/// port of the same container, and its command can be the command that the
/// configuration gives for the port.
pub open spec fn agrees(config: ConfigView, expected: EntryView, entry: EntryView) -> bool {
    &&& entry.service == expected.service
    &&& entry.port == expected.port
    &&& entry.state == expected.state
    &&& entry.exposed_port == expected.exposed_port
    &&& config.renders(entry.service, entry.port, entry.exposed_port, entry.command)
}

/// `entries` has an entry for each one expected, in the same order.
pub open spec fn resolves_as(
    config: ConfigView,
    expected: Seq<EntryView>,
    entries: Seq<EntryView>,
) -> bool {
    &&& entries.len() == expected.len()
    &&& forall|i: int|
        0 <= i < entries.len() ==> agrees(config, expected[i], #[trigger] entries[i])
}

/// `entries` can be the entries of the containers under the configuration:
/// for each container in turn, one entry for each of its ports, with a
/// command that the configuration gives for the port.
pub open spec fn resolves(
    config: ConfigView,
    services: Seq<ServiceView>,
    entries: Seq<EntryView>,
) -> bool {
    resolves_as(config, resolved(config, services), entries)
}

/// The templates of all ports of the containers are determined, so that
/// the containers have one list of entries.
pub open spec fn all_determined(config: ConfigView, services: Seq<ServiceView>) -> bool {
    forall|i: int|
        0 <= i < resolved(config, services).len() ==> determined(
            config.template(
                (#[trigger] resolved(config, services)[i]).service,
                resolved(config, services)[i].port,
            ),
        )
}

/// Where the templates of all ports are determined the containers have
/// one list of entries.
pub proof fn lemma_resolution_determined(
    config: ConfigView,
    services: Seq<ServiceView>,
    entries: Seq<EntryView>,
)
    requires
        all_determined(config, services),
        resolves(config, services, entries),
    ensures
        entries == resolved(config, services),
{
    let expected = resolved(config, services);
    lemma_resolved_commands(config, services);
    assert forall|i: int| 0 <= i < entries.len() implies entries[i] == expected[i] by {
        assert(agrees(config, expected[i], entries[i]));
        assert(determined(config.template(expected[i].service, expected[i].port)));
    }
    assert(entries =~= expected);
}

/// Each of the entries that are expected holds the command that the
/// configuration gives for its port where the template is determined.
proof fn lemma_resolved_commands(config: ConfigView, services: Seq<ServiceView>)
    ensures
        forall|i: int|
            0 <= i < resolved(config, services).len() ==> (#[trigger] resolved(
                config,
                services,
            )[i]).command == config.render(
                resolved(config, services)[i].service,
                resolved(config, services)[i].port,
                resolved(config, services)[i].exposed_port,
            ),
    decreases services.len(),
{
    if services.len() > 0 {
        let init = resolved(config, services.drop_last());
        let last = service_entries(config, services.last());
        lemma_resolved_commands(config, services.drop_last());
        assert forall|i: int| 0 <= i < resolved(config, services).len() implies (
        #[trigger] resolved(config, services)[i]).command == config.render(
            resolved(config, services)[i].service,
            resolved(config, services)[i].port,
            resolved(config, services)[i].exposed_port,
        ) by {
            if i < init.len() {
                assert(resolved(config, services)[i] == init[i]);
            } else {
                assert(resolved(config, services)[i] == last[i - init.len()]);
            }
        }
    }
}

/// The first column of an entry's line: the service label, a colon, and
/// the internal port.
pub open spec fn key(entry: EntryView) -> Seq<char> {
    entry.service + seq![':'] + decimal(entry.port as nat)
}

/// The second column of an entry's line: the state in square brackets.
pub open spec fn marker(entry: EntryView) -> Seq<char> {
    seq!['['] + entry.state + seq![']']
}

/// The width of the first column: that of the longest key, counted in
/// characters.
pub open spec fn key_width(entries: Seq<EntryView>) -> nat
    decreases entries.len(),
{
    if entries.len() == 0 {
        0
    } else {
        let rest = key_width(entries.drop_last());
        if key(entries.last()).len() > rest {
            key(entries.last()).len()
        } else {
            rest
        }
    }
}

/// The width of the second column: that of the longest marker, counted in
/// characters.
pub open spec fn marker_width(entries: Seq<EntryView>) -> nat
    decreases entries.len(),
{
    if entries.len() == 0 {
        0
    } else {
        let rest = marker_width(entries.drop_last());
        if marker(entries.last()).len() > rest {
            marker(entries.last()).len()
        } else {
            rest
        }
    }
}

/// The line of an entry in a list whose columns have these widths: the key
/// and the marker, each filled up with spaces to the width of its column,
/// and the command, with one space between each two of them.
pub open spec fn line(entry: EntryView, key_width: nat, marker_width: nat) -> Seq<char> {
    padded(key(entry), key_width) + seq![' '] + padded(marker(entry), marker_width) + seq![' ']
        + entry.command
}

/// The lines of the entries, one for each, in their order.
pub open spec fn lines(entries: Seq<EntryView>) -> Seq<Seq<char>> {
    Seq::new(
        entries.len(),
        |i: int| line(entries[i], key_width(entries), marker_width(entries)),
    )
}

/// The list that is shown for the entries: their lines in ascending order,
/// each of them once.
pub open spec fn display_lines(entries: Seq<EntryView>) -> Seq<Seq<char>> {
    sorted_unique(lines(entries))
}

/// Containers without a published port give no entries.
pub proof fn lemma_no_ports_no_entries(config: ConfigView, services: Seq<ServiceView>)
    requires
        forall|i: int| 0 <= i < services.len() ==> (#[trigger] services[i]).ports.len() == 0,
    ensures
        resolved(config, services).len() == 0,
    decreases services.len(),
{
    if services.len() > 0 {
        assert forall|i: int| 0 <= i < services.drop_last().len() implies (
        #[trigger] services.drop_last()[i]).ports.len() == 0 by {
            assert(services.drop_last()[i] == services[i]);
        }
        lemma_no_ports_no_entries(config, services.drop_last());
        assert(services.last() == services[services.len() - 1]);
    }
}

/// `shown` can be the list that is shown for the containers under the
/// configuration: the lines, in ascending order and each of them once, of
/// entries that the containers can have.
pub open spec fn shows(
    config: ConfigView,
    services: Seq<ServiceView>,
    shown: Seq<Seq<char>>,
) -> bool {
    exists|entries: Seq<EntryView>| #[trigger]
        resolves(config, services, entries) && shown == display_lines(entries)
}

/// Where the templates of all ports are determined one list is shown for
/// the containers.
pub proof fn lemma_shown_determined(
    config: ConfigView,
    services: Seq<ServiceView>,
    shown: Seq<Seq<char>>,
)
    requires
        all_determined(config, services),
        shows(config, services, shown),
    ensures
        shown == display_lines(resolved(config, services)),
{
    let entries = choose|entries: Seq<EntryView>| #[trigger]
        resolves(config, services, entries) && shown == display_lines(entries);
    lemma_resolution_determined(config, services, entries);
}

/// Containers of which no entry is expected show an empty list.
pub proof fn lemma_shown_empty(
    config: ConfigView,
    services: Seq<ServiceView>,
    shown: Seq<Seq<char>>,
)
    requires
        resolved(config, services).len() == 0,
        shows(config, services, shown),
    ensures
        shown.len() == 0,
{
    let entries = choose|entries: Seq<EntryView>| #[trigger]
        resolves(config, services, entries) && shown == display_lines(entries);
    lemma_display_lines(entries);
}

/// No key is wider than the first column, and no marker wider than the
/// second; where there are entries, some key and some marker fill their
/// column.
pub proof fn lemma_widths(entries: Seq<EntryView>)
    ensures
        forall|i: int|
            0 <= i < entries.len() ==> key(#[trigger] entries[i]).len() <= key_width(entries)
                && marker(entries[i]).len() <= marker_width(entries),
        entries.len() > 0 ==> exists|i: int|
            0 <= i < entries.len() && key(#[trigger] entries[i]).len() == key_width(entries),
        entries.len() > 0 ==> exists|i: int|
            0 <= i < entries.len() && marker(#[trigger] entries[i]).len() == marker_width(entries),
    decreases entries.len(),
{
    if entries.len() > 0 {
        let init = entries.drop_last();
        let last = entries.len() - 1;
        lemma_widths(init);
        assert forall|i: int| 0 <= i < entries.len() implies key(#[trigger] entries[i]).len()
            <= key_width(entries) && marker(entries[i]).len() <= marker_width(entries) by {
            if i < last {
                assert(init[i] == entries[i]);
            }
        }
        if key(entries.last()).len() > key_width(init) || init.len() == 0 {
            assert(key(entries[last]).len() == key_width(entries));
        } else {
            let i = choose|i: int|
                0 <= i < init.len() && key(#[trigger] init[i]).len() == key_width(init);
            assert(key(entries[i]).len() == key_width(entries));
        }
        if marker(entries.last()).len() > marker_width(init) || init.len() == 0 {
            assert(marker(entries[last]).len() == marker_width(entries));
        } else {
            let i = choose|i: int|
                0 <= i < init.len() && marker(#[trigger] init[i]).len() == marker_width(init);
            assert(marker(entries[i]).len() == marker_width(entries));
        }
    }
}

/// In every line of a list the command starts at the same place: after the
/// two columns and the space that follows each.
pub proof fn lemma_commands_aligned(entries: Seq<EntryView>, i: int)
    requires
        0 <= i < entries.len(),
    ensures
        lines(entries)[i].len() == key_width(entries) + marker_width(entries) + 2
            + entries[i].command.len(),
        lines(entries)[i].skip((key_width(entries) + marker_width(entries) + 2) as int)
            == entries[i].command,
        lines(entries)[i][key_width(entries) as int] == ' ',
        lines(entries)[i][(key_width(entries) + marker_width(entries) + 1) as int] == ' ',
{
    lemma_widths(entries);
    let entry = entries[i];
    let first = padded(key(entry), key_width(entries));
    let second = padded(marker(entry), marker_width(entries));
    assert(first.len() == key_width(entries));
    assert(second.len() == marker_width(entries));
    assert(lines(entries)[i] == first + seq![' '] + second + seq![' '] + entry.command);
    assert(lines(entries)[i].skip((key_width(entries) + marker_width(entries) + 2) as int)
        =~= entry.command);
}

/// Lists that hold the same entries have columns of the same widths.
proof fn lemma_widths_by_content(a: Seq<EntryView>, b: Seq<EntryView>)
    requires
        forall|entry: EntryView| a.contains(entry) <==> b.contains(entry),
    ensures
        key_width(a) == key_width(b),
        marker_width(a) == marker_width(b),
{
    lemma_widths(a);
    lemma_widths(b);
    if a.len() == 0 {
        if b.len() > 0 {
            assert(b.contains(b[0]));
        }
    } else if b.len() == 0 {
        assert(a.contains(a[0]));
    } else {
        let i = choose|i: int| 0 <= i < a.len() && key(#[trigger] a[i]).len() == key_width(a);
        assert(a.contains(a[i]));
        let j = choose|j: int| 0 <= j < b.len() && b[j] == a[i];
        assert(key(b[j]).len() <= key_width(b));
        let i = choose|i: int| 0 <= i < b.len() && key(#[trigger] b[i]).len() == key_width(b);
        assert(b.contains(b[i]));
        let j = choose|j: int| 0 <= j < a.len() && a[j] == b[i];
        assert(key(a[j]).len() <= key_width(a));
        let i = choose|i: int|
            0 <= i < a.len() && marker(#[trigger] a[i]).len() == marker_width(a);
        assert(a.contains(a[i]));
        let j = choose|j: int| 0 <= j < b.len() && b[j] == a[i];
        assert(marker(b[j]).len() <= marker_width(b));
        let i = choose|i: int|
            0 <= i < b.len() && marker(#[trigger] b[i]).len() == marker_width(b);
        assert(b.contains(b[i]));
        let j = choose|j: int| 0 <= j < a.len() && a[j] == b[i];
        assert(marker(a[j]).len() <= marker_width(a));
    }
}

/// The list that is shown is strictly ascending, so no line occurs in it
/// twice, and it holds exactly the lines of the entries: entries with the
/// same line share one place in it.
pub proof fn lemma_display_lines(entries: Seq<EntryView>)
    ensures
        strictly_ascending(display_lines(entries)),
        display_lines(entries).no_duplicates(),
        display_lines(entries).len() <= entries.len(),
        forall|i: int|
            0 <= i < entries.len() ==> display_lines(entries).contains(
                #[trigger] lines(entries)[i],
            ),
        forall|k: int|
            0 <= k < display_lines(entries).len() ==> lines(entries).contains(
                #[trigger] display_lines(entries)[k],
            ),
{
    lemma_sorted_unique_ascending(lines(entries));
    assert forall|i: int| 0 <= i < entries.len() implies display_lines(entries).contains(
        #[trigger] lines(entries)[i],
    ) by {
        assert(lines(entries).contains(lines(entries)[i]));
    }
    assert forall|k: int| 0 <= k < display_lines(entries).len() implies lines(entries).contains(
        #[trigger] display_lines(entries)[k],
    ) by {
        assert(display_lines(entries).contains(display_lines(entries)[k]));
    }
}

/// The list that is shown does not depend on the order in which the
/// entries are given: lists that hold the same entries, each as often as
/// in the other, are shown alike.
pub proof fn lemma_display_order_independent(a: Seq<EntryView>, b: Seq<EntryView>)
    requires
        a.to_multiset() == b.to_multiset(),
    ensures
        display_lines(a) == display_lines(b),
{
    assert forall|entry: EntryView| a.contains(entry) <==> b.contains(entry) by {
        to_multiset_contains(a, entry);
        to_multiset_contains(b, entry);
    }
    lemma_widths_by_content(a, b);
    assert forall|text: Seq<char>| lines(a).contains(text) <==> lines(b).contains(text) by {
        if lines(a).contains(text) {
            let i = choose|i: int| 0 <= i < lines(a).len() && lines(a)[i] == text;
            assert(a.contains(a[i]));
            let j = choose|j: int| 0 <= j < b.len() && b[j] == a[i];
            assert(lines(b)[j] == text);
        }
        if lines(b).contains(text) {
            let i = choose|i: int| 0 <= i < lines(b).len() && lines(b)[i] == text;
            assert(b.contains(b[i]));
            let j = choose|j: int| 0 <= j < a.len() && a[j] == b[i];
            assert(lines(a)[j] == text);
        }
    }
    lemma_sorted_unique_by_content(lines(a), lines(b));
}

/// The entries of the containers under a configuration: for each container
/// in turn, one entry for each of its ports, with the command that the
/// configuration resolves for the port.
pub fn resolve(config: &Config, services: &[Service]) -> (entries: Vec<Entry>)
    ensures
        resolves(config@, services_view(services@), entries_view(entries@)),
        all_determined(config@, services_view(services@)) ==> entries_view(entries@) == resolved(
            config@,
            services_view(services@),
        ),
{
    let ghost all = services_view(services@);
    let mut entries: Vec<Entry> = Vec::new();
    let mut i: usize = 0;
    assert(resolved(config@, all.take(0)).len() == 0);
    while i < services.len()
        invariant
            i <= services.len(),
            all == services_view(services@),
            resolves_as(config@, resolved(config@, all.take(i as int)), entries_view(entries@)),
        decreases services.len() - i,
    {
        let service = &services[i];
        let ghost done = resolved(config@, all.take(i as int));
        let ghost current = service_entries(config@, service@);
        let mut j: usize = 0;
        assert(done + current.take(0) =~= done);
        while j < service.ports.len()
            invariant
                j <= service.ports.len(),
                current == service_entries(config@, service@),
                resolves_as(config@, done + current.take(j as int), entries_view(entries@)),
            decreases service.ports.len() - j,
        {
            let port = &service.ports[j];
            let entry = Entry {
                service: service.service.clone(),
                port: port.port,
                state: service.state.clone(),
                exposed_port: port.exposed_port,
                command: config.render(service.service.as_str(), port.port, port.exposed_port),
            };
            let ghost before = entries_view(entries@);
            let ghost expected = done + current.take(j as int);
            assert(agrees(config@, current[j as int], entry@));
            entries.push(entry);
            j = j + 1;
            proof {
                let after = entries_view(entries@);
                assert(after =~= before.push(entry@));
                assert(done + current.take(j as int) =~= expected.push(current[j - 1]));
                assert forall|k: int| 0 <= k < after.len() implies agrees(
                    config@,
                    expected.push(current[j - 1])[k],
                    #[trigger] after[k],
                ) by {
                    if k < before.len() {
                        assert(agrees(config@, expected[k], before[k]));
                    }
                }
            }
        }
        i = i + 1;
        proof {
            assert(current.take(j as int) =~= current);
            assert(all.take(i as int).drop_last() =~= all.take(i - 1));
            assert(all.take(i as int).last() == service@);
        }
    }
    assert(all.take(i as int) =~= all);
    proof {
        if all_determined(config@, all) {
            lemma_resolution_determined(config@, all, entries_view(entries@));
        }
    }
    entries
}

fn key_text(entry: &Entry) -> (text: String)
    ensures
        text@ == key(entry@),
{
    proof {
        reveal_strlit(":");
    }
    let text = entry.service.clone().concat(":").concat(
        decimal_text(entry.port as u64).as_str(),
    );
    assert(text@ =~= key(entry@));
    text
}

fn marker_text(entry: &Entry) -> (text: String)
    ensures
        text@ == marker(entry@),
{
    proof {
        reveal_strlit("[");
        reveal_strlit("]");
    }
    let text = String::from_str("[").concat(entry.state.as_str()).concat("]");
    assert(text@ =~= marker(entry@));
    text
}

/// The widths of the two columns of a list.
fn widths(entries: &[Entry]) -> (widths: (usize, usize))
    ensures
        widths.0 == key_width(entries_view(entries@)),
        widths.1 == marker_width(entries_view(entries@)),
{
    let ghost all = entries_view(entries@);
    let mut key_width: usize = 0;
    let mut marker_width: usize = 0;
    let mut i: usize = 0;
    while i < entries.len()
        invariant
            i <= entries.len(),
            all == entries_view(entries@),
            key_width == self::key_width(all.take(i as int)),
            marker_width == self::marker_width(all.take(i as int)),
        decreases entries.len() - i,
    {
        let key_length: usize = key_text(&entries[i]).as_str().unicode_len();
        let marker_length: usize = marker_text(&entries[i]).as_str().unicode_len();
        proof {
            assert(all.take(i + 1).drop_last() =~= all.take(i as int));
            assert(all.take(i + 1).last() == entries[i as int]@);
        }
        if key_length > key_width {
            key_width = key_length;
        }
        if marker_length > marker_width {
            marker_width = marker_length;
        }
        i = i + 1;
    }
    assert(all.take(i as int) =~= all);
    (key_width, marker_width)
}

/// The list that is shown for the entries: one line for each, with the key
/// and the state marker filled up with spaces to the widths of the longest
/// key and the longest marker, so that the commands start at one place; the
/// lines in ascending order, each of them once. No entries give no lines.
pub fn format_entries(entries: &[Entry]) -> (shown: Vec<String>)
    ensures
        shown.deep_view() == display_lines(entries_view(entries@)),
        entries@.len() == 0 ==> shown@.len() == 0,
{
    let ghost all = entries_view(entries@);
    let (key_width, marker_width) = widths(entries);
    let mut lines: Vec<String> = Vec::new();
    let mut i: usize = 0;
    proof {
        reveal_strlit(" ");
    }
    while i < entries.len()
        invariant
            i <= entries.len(),
            all == entries_view(entries@),
            key_width == self::key_width(all),
            marker_width == self::marker_width(all),
            lines.len() == i,
            forall|k: int| 0 <= k < i ==> (#[trigger] lines[k])@ == self::lines(all)[k],
            " "@ =~= seq![' '],
        decreases entries.len() - i,
    {
        let entry = &entries[i];
        let mut text = pad(key_text(entry), key_width);
        text.append(" ");
        text.append(pad(marker_text(entry), marker_width).as_str());
        text.append(" ");
        text.append(entry.command.as_str());
        assert(text@ =~= line(all[i as int], key_width as nat, marker_width as nat));
        lines.push(text);
        i = i + 1;
    }
    assert(lines.deep_view() =~= self::lines(all));
    let shown = sort_unique(lines);
    proof {
        lemma_display_lines(all);
    }
    shown
}

} // verus!
