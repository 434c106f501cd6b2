use vstd::prelude::*;
use crate::models::{AppError, Device, Transition};

verus! {

/// Lower-case label used in user-facing notification texts.
pub open spec fn spec_status_label(is_online: bool) -> Seq<char> {
    if is_online {
        "online"@
    } else {
        "offline"@
    }
}

/// Label of a status as shown in notifications ("online" / "offline").
pub fn status_label_pt_br(is_online: bool) -> (label: &'static str)
    ensures
        label@ == spec_status_label(is_online),
{
    if is_online {
        "online"
    } else {
        "offline"
    }
}

/// Label of a status as recorded in a transition ("Online" / "Offline").
pub open spec fn spec_transition_label(is_online: bool) -> Seq<char> {
    if is_online {
        "Online"@
    } else {
        "Offline"@
    }
}

/// Label of a status as recorded in a transition ("Online" / "Offline").
pub fn transition_label(is_online: bool) -> (label: String)
    ensures
        label@ == spec_transition_label(is_online),
{
    if is_online {
        String::from_str("Online")
    } else {
        String::from_str("Offline")
    }
}

/// A native notification to show: a title and a body.
pub struct Notification {
    pub title: String,
    pub body: String,
}

/// Title of the notification for the first status found for a device.
pub open spec fn spec_initial_title(name: Seq<char>) -> Seq<char> {
    "Status inicial detectado: "@ + name
}

/// Body of the notification for the first status found for a device.
pub open spec fn spec_initial_body(name: Seq<char>, ip: Seq<char>, is_online: bool) -> Seq<char> {
    "O dispositivo "@ + name + " (IP: "@ + ip + ") está "@ + spec_status_label(is_online) + "."@
}

/// Title of the notification for a change of status.
pub open spec fn spec_change_title(name: Seq<char>) -> Seq<char> {
    "Mudança de status: "@ + name
}

/// Body of the notification for a change of status.
pub open spec fn spec_change_body(
    name: Seq<char>,
    ip: Seq<char>,
    from: bool,
    to: bool,
) -> Seq<char> {
    "O dispositivo "@ + name + " (IP: "@ + ip + ") mudou de "@ + spec_status_label(from)
        + " para "@ + spec_status_label(to) + "."@
}

/// Notification for the first status found for a device.
pub fn initial_notification(name: &str, ip: &str, is_online: bool) -> (n: Notification)
    ensures
        n.title@ == spec_initial_title(name@),
        n.body@ == spec_initial_body(name@, ip@, is_online),
{
    let title = String::from_str("Status inicial detectado: ").concat(name);
    let mut body = String::from_str("O dispositivo ");
    body.append(name);
    body.append(" (IP: ");
    body.append(ip);
    body.append(") está ");
    body.append(status_label_pt_br(is_online));
    body.append(".");
    Notification { title, body }
}

/// Notification for a change of status of a device.
pub fn change_notification(name: &str, ip: &str, from: bool, to: bool) -> (n: Notification)
    ensures
        n.title@ == spec_change_title(name@),
        n.body@ == spec_change_body(name@, ip@, from, to),
{
    let title = String::from_str("Mudança de status: ").concat(name);
    let mut body = String::from_str("O dispositivo ");
    body.append(name);
    body.append(" (IP: ");
    body.append(ip);
    body.append(") mudou de ");
    body.append(status_label_pt_br(from));
    body.append(" para ");
    body.append(status_label_pt_br(to));
    body.append(".");
    Notification { title, body }
}

/// Source recorded for errors of native notifications.
pub open spec fn spec_notification_source() -> Seq<char> {
    "NOTIFICATION"@
}

/// Message recorded when a notification for a device could not be shown.
pub open spec fn spec_notification_failure_message(
    name: Seq<char>,
    ip: Seq<char>,
    error: Seq<char>,
) -> Seq<char> {
    "Não foi possível exibir a notificação do dispositivo "@ + name + " ("@ + ip + "): "@ + error
}

/// The error record kept when a notification for a device could not be
/// shown; `error` is the notification system's own description.
pub fn notification_failure(name: &str, ip: &str, error: &str) -> (e: AppError)
    ensures
        e.id is None,
        e.timestamp is None,
        e.source@ == spec_notification_source(),
        e.message@ == spec_notification_failure_message(name@, ip@, error@),
{
    let mut message = String::from_str("Não foi possível exibir a notificação do dispositivo ");
    message.append(name);
    message.append(" (");
    message.append(ip);
    message.append("): ");
    message.append(error);
    AppError {
        id: None,
        source: String::from_str("NOTIFICATION"),
        message,
        timestamp: None,
    }
}

/// Model of the state of the monitor of one device.
pub struct MonitorModel {
    pub device_id: i64,
    pub name: Seq<char>,
    pub ip: Seq<char>,
    /// Status found by the latest check.
    pub last_status: bool,
    /// Whether a check has completed yet.
    pub initialized: bool,
}

/// What one check of a device leads to: the notification to show (title,
/// body) and the transition to record (from, to), if any.
pub struct StepModel {
    pub notification: Option<(Seq<char>, Seq<char>)>,
    pub transition: Option<(bool, bool)>,
}

/// The monitor of one device after a check that found it `is_online`, and
/// what that check leads to. The first check is always announced; later
/// ones only when the status differs from the previous one.
pub open spec fn spec_observe(m: MonitorModel, is_online: bool) -> (MonitorModel, StepModel) {
    let next = MonitorModel { last_status: is_online, initialized: true, ..m };
    if !m.initialized {
        (
            next,
            StepModel {
                notification: Some(
                    (spec_initial_title(m.name), spec_initial_body(m.name, m.ip, is_online)),
                ),
                transition: None,
            },
        )
    } else if is_online != m.last_status {
        (
            next,
            StepModel {
                notification: Some(
                    (
                        spec_change_title(m.name),
                        spec_change_body(m.name, m.ip, m.last_status, is_online),
                    ),
                ),
                transition: Some((m.last_status, is_online)),
            },
        )
    } else {
        (m, StepModel { notification: None, transition: None })
    }
}

/// The loop state of the monitor of one device.
pub struct DeviceMonitor {
    device_id: i64,
    name: String,
    ip: String,
    last_status: bool,
    state_initialized: bool,
}

impl View for DeviceMonitor {
    type V = MonitorModel;

    closed spec fn view(&self) -> MonitorModel {
        MonitorModel {
            device_id: self.device_id,
            name: self.name@,
            ip: self.ip@,
            last_status: self.last_status,
            initialized: self.state_initialized,
        }
    }
}

/// What the monitor loop must do after one check.
pub struct MonitorStep {
    pub notification: Option<Notification>,
    pub transition: Option<Transition>,
}

impl MonitorStep {
    /// This step carries out `s`: the same notification texts, and a
    /// transition record of the device labelled with the same statuses.
    pub open spec fn carries_out(&self, device_id: i64, s: StepModel) -> bool {
        &&& match (self.notification, s.notification) {
            (Some(n), Some((title, body))) => n.title@ == title && n.body@ == body,
            (None, None) => true,
            _ => false,
        }
        &&& match (self.transition, s.transition) {
            (Some(t), Some((from, to))) => {
                &&& t.id is None
                &&& t.timestamp is None
                &&& t.device_id == device_id
                &&& t.from_status@ == spec_transition_label(from)
                &&& t.to_status@ == spec_transition_label(to)
            },
            (None, None) => true,
            _ => false,
        }
    }
}

/// Model of a monitor that has not checked its device yet.
pub open spec fn fresh_monitor(device: Device) -> MonitorModel {
    MonitorModel {
        device_id: device.id->0,
        name: device.name@,
        ip: device.ip@,
        last_status: true,
        initialized: false,
    }
}

impl DeviceMonitor {
    /// Starts monitoring a stored device; the device must have its id.
    pub fn new(device: &Device) -> (m: DeviceMonitor)
        requires
            device.id is Some,
        ensures
            m@ == fresh_monitor(*device),
    {
        DeviceMonitor {
            device_id: device.id.unwrap(),
            name: device.name.clone(),
            ip: device.ip.clone(),
            last_status: true,
            state_initialized: false,
        }
    }

    /// The id of the monitored device.
    pub fn device_id(&self) -> (id: i64)
        ensures
            id == self@.device_id,
    {
        self.device_id
    }

    /// Takes the result of a check of the device and says what to announce
    /// and record.
    pub fn observe(&mut self, is_online: bool) -> (step: MonitorStep)
        ensures
            final(self)@ == spec_observe(old(self)@, is_online).0,
            step.carries_out(old(self)@.device_id, spec_observe(old(self)@, is_online).1),
    {
        if !self.state_initialized {
            let n = initial_notification(self.name.as_str(), self.ip.as_str(), is_online);
            self.last_status = is_online;
            self.state_initialized = true;
            MonitorStep { notification: Some(n), transition: None }
        } else if is_online != self.last_status {
            let from = self.last_status;
            let t = Transition {
                id: None,
                device_id: self.device_id,
                from_status: transition_label(from),
                to_status: transition_label(is_online),
                timestamp: None,
            };
            let n = change_notification(self.name.as_str(), self.ip.as_str(), from, is_online);
            self.last_status = is_online;
            MonitorStep { notification: Some(n), transition: Some(t) }
        } else {
            MonitorStep { notification: None, transition: None }
        }
    }
}

/// The first check of a device is announced with the status that check
/// found: for any monitor that has not checked its device yet and any found
/// status, the step shows the notification titled "Status inicial detectado: "
/// followed by the device name, whose body reads "O dispositivo <name> (IP:
/// <ip>) está online." for an online device and "... está offline." for an
/// offline one; no transition is recorded, and the monitor then remembers
/// the found status.
pub proof fn lemma_initial_notification_reports_found_status(m: MonitorModel, found: bool)
    requires
        !m.initialized,
    ensures
        spec_observe(m, found).1.notification == Some(
            (
                "Status inicial detectado: "@ + m.name,
                "O dispositivo "@ + m.name + " (IP: "@ + m.ip + ") está "@ + (if found {
                    "online"@
                } else {
                    "offline"@
                }) + "."@,
            ),
        ),
        spec_observe(m, found).1.transition is None,
        spec_observe(m, found).0.initialized,
        spec_observe(m, found).0.last_status == found,
{
}

/// The initial notification tells an online device from an offline one: the
/// bodies for the two found statuses differ.
pub proof fn lemma_initial_notification_distinguishes_status(m: MonitorModel)
    requires
        !m.initialized,
    ensures
        spec_observe(m, true).1.notification != spec_observe(m, false).1.notification,
{
    reveal_strlit("online");
    reveal_strlit("offline");
    reveal_strlit("O dispositivo ");
    reveal_strlit(" (IP: ");
    reveal_strlit(") está ");
    let prefix = "O dispositivo "@ + m.name + " (IP: "@ + m.ip + ") está "@;
    let on = prefix + "online"@ + "."@;
    let off = prefix + "offline"@ + "."@;
    assert(on.len() != off.len());
}

/// After a change of status, the change notification names the earlier
/// status first and the new one second: for any monitor that has checked its
/// device and a check that finds the other status, the body reads
/// "O dispositivo <name> (IP: <ip>) mudou de <earlier> para <new>.", with
/// "online" for online and "offline" for offline, and the transition goes
/// from the earlier status to the new one.
pub proof fn lemma_change_notification_names_both_statuses(m: MonitorModel, found: bool)
    requires
        m.initialized,
        found != m.last_status,
    ensures
        spec_observe(m, found).1.notification == Some(
            (
                "Mudança de status: "@ + m.name,
                "O dispositivo "@ + m.name + " (IP: "@ + m.ip + ") mudou de "@ + (if m.last_status {
                    "online"@
                } else {
                    "offline"@
                }) + " para "@ + (if found {
                    "online"@
                } else {
                    "offline"@
                }) + "."@,
            ),
        ),
        spec_observe(m, found).1.transition == Some((m.last_status, found)),
        spec_observe(m, found).0.last_status == found,
{
}

/// The change-notification body reads "... mudou de <from> para <to>." for
/// every pair of statuses, so a recovery ("mudou de offline para online")
/// and a drop ("mudou de online para offline") give different texts.
pub proof fn lemma_change_body_order(name: Seq<char>, ip: Seq<char>, from: bool, to: bool)
    ensures
        spec_change_body(name, ip, from, to) == "O dispositivo "@ + name + " (IP: "@ + ip
            + ") mudou de "@ + (if from {
            "online"@
        } else {
            "offline"@
        }) + " para "@ + (if to {
            "online"@
        } else {
            "offline"@
        }) + "."@,
        from != to ==> spec_change_body(name, ip, from, to) != spec_change_body(name, ip, to, from),
{
    if from != to {
        reveal_strlit("online");
        reveal_strlit("offline");
        reveal_strlit("O dispositivo ");
        reveal_strlit(" (IP: ");
        reveal_strlit(") mudou de ");
        let prefix = "O dispositivo "@ + name + " (IP: "@ + ip + ") mudou de "@;
        let a = spec_change_body(name, ip, from, to);
        let b = spec_change_body(name, ip, to, from);
        let k: int = prefix.len() as int + 1;
        assert(a[k] == spec_status_label(from)[1]);
        assert(b[k] == spec_status_label(to)[1]);
    }
}

/// Transitions are recorded with capitalised labels: "Online" for an online
/// device and "Offline" for an offline one, and the two labels differ.
pub proof fn lemma_transition_labels(is_online: bool)
    ensures
        spec_transition_label(is_online) == if is_online {
            "Online"@
        } else {
            "Offline"@
        },
        spec_transition_label(is_online) != spec_transition_label(!is_online),
{
    reveal_strlit("Online");
    reveal_strlit("Offline");
    assert("Online"@.len() != "Offline"@.len());
}

/// A notification that could not be shown is recorded under the source
/// "NOTIFICATION" with a message that names the device and its address and
/// ends with the notification system's own error text, whatever it is.
pub proof fn lemma_notification_failure_message(name: Seq<char>, ip: Seq<char>, error: Seq<char>)
    ensures
        spec_notification_source() == "NOTIFICATION"@,
        spec_notification_failure_message(name, ip, error) == "Não foi possível exibir a notificação do dispositivo "@
            + name + " ("@ + ip + "): "@ + error,
        spec_notification_failure_message(name, ip, error).subrange(
            spec_notification_failure_message(name, ip, error).len() - error.len(),
            spec_notification_failure_message(name, ip, error).len() as int,
        ) == error,
{
    let msg = spec_notification_failure_message(name, ip, error);
    assert(msg.subrange(msg.len() - error.len(), msg.len() as int) =~= error);
}

/// The monitor and the steps after checks that found the statuses `obs`, in
/// order.
pub open spec fn spec_run(m: MonitorModel, obs: Seq<bool>) -> (MonitorModel, Seq<StepModel>)
    decreases obs.len(),
{
    if obs.len() == 0 {
        (m, Seq::empty())
    } else {
        let (before, steps) = spec_run(m, obs.drop_last());
        let (after, step) = spec_observe(before, obs.last());
        (after, steps.push(step))
    }
}

/// Number of checks whose status differs from the check before.
pub open spec fn status_changes(obs: Seq<bool>) -> nat
    decreases obs.len(),
{
    if obs.len() < 2 {
        0
    } else {
        status_changes(obs.drop_last()) + if obs.last() != obs[obs.len() - 2] {
            1nat
        } else {
            0nat
        }
    }
}

/// Number of steps that record a transition.
pub open spec fn transitions_recorded(steps: Seq<StepModel>) -> nat
    decreases steps.len(),
{
    if steps.len() == 0 {
        0
    } else {
        transitions_recorded(steps.drop_last()) + if steps.last().transition is Some {
            1nat
        } else {
            0nat
        }
    }
}

/// Number of steps that show a notification.
pub open spec fn notifications_shown(steps: Seq<StepModel>) -> nat
    decreases steps.len(),
{
    if steps.len() == 0 {
        0
    } else {
        notifications_shown(steps.drop_last()) + if steps.last().notification is Some {
            1nat
        } else {
            0nat
        }
    }
}

/// Over any sequence of checks of a device, from a monitor that has not
/// checked it yet: a transition is recorded exactly at the checks whose status
/// differs from the one before, from the earlier status to the new one;
/// a notification is shown at the first check and at each transition, and
/// nowhere else; so the number of transitions is the number of status changes
/// and there is exactly one notification more than there are transitions.
pub proof fn lemma_notifications_follow_transitions(m: MonitorModel, obs: Seq<bool>)
    requires
        !m.initialized,
        obs.len() > 0,
    ensures
        ({
            let (last, steps) = spec_run(m, obs);
            &&& steps.len() == obs.len()
            &&& last.initialized
            &&& last.last_status == obs.last()
            &&& forall|i: int|
                0 <= i < steps.len() ==> (#[trigger] steps[i]).transition == if i > 0 && obs[i]
                    != obs[i - 1] {
                    Some((obs[i - 1], obs[i]))
                } else {
                    None
                }
            &&& forall|i: int|
                0 <= i < steps.len() ==> ((#[trigger] steps[i]).notification is Some <==> (i == 0
                    || obs[i] != obs[i - 1]))
            &&& transitions_recorded(steps) == status_changes(obs)
            &&& notifications_shown(steps) == transitions_recorded(steps) + 1
        }),
    decreases obs.len(),
{
    let (last, steps) = spec_run(m, obs);
    if obs.len() == 1 {
        assert(obs.drop_last() =~= Seq::<bool>::empty());
        let (m0, s0) = spec_run(m, obs.drop_last());
        assert(m0 == m && s0 =~= Seq::<StepModel>::empty());
        assert(steps =~= s0.push(spec_observe(m, obs[0]).1));
        assert(transitions_recorded(s0) == 0);
        assert(notifications_shown(s0) == 0);
        assert(steps.drop_last() =~= s0);
    } else {
        let prefix = obs.drop_last();
        lemma_notifications_follow_transitions(m, prefix);
        let (before, psteps) = spec_run(m, prefix);
        let step = spec_observe(before, obs.last()).1;
        assert(steps == psteps.push(step));
        assert(steps.drop_last() =~= psteps);
        assert(prefix.last() == obs[obs.len() - 2]);
        assert forall|i: int| 0 <= i < steps.len() implies (#[trigger] steps[i]).transition
            == if i > 0 && obs[i] != obs[i - 1] {
            Some((obs[i - 1], obs[i]))
        } else {
            None
        } by {
            if i < psteps.len() {
                assert(steps[i] == psteps[i]);
                assert(obs[i] == prefix[i]);
                if i > 0 {
                    assert(obs[i - 1] == prefix[i - 1]);
                }
            }
        }
        assert forall|i: int| 0 <= i < steps.len() implies ((#[trigger] steps[i]).notification
            is Some <==> (i == 0 || obs[i] != obs[i - 1])) by {
            if i < psteps.len() {
                assert(steps[i] == psteps[i]);
                assert(obs[i] == prefix[i]);
                if i > 0 {
                    assert(obs[i - 1] == prefix[i - 1]);
                }
            }
        }
    }
}

} // verus!
