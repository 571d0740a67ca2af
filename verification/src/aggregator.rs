//! Notifications on their way out: sent one by one, or gathered between the
//! ticks of a timer and sent as one.
use crate::order::reversed;
use std::time::Duration;
use vstd::prelude::*;

verus! {

/// A message for a notification channel. Made once, sent once.
#[derive(Clone, Debug, PartialEq, Eq)]
pub struct Notification {
    /// The channel it is for.
    pub channel: String,
    pub title: String,
    pub body: String,
}

pub struct NotificationView {
    pub channel: Seq<char>,
    pub title: Seq<char>,
    pub body: Seq<char>,
}

impl View for Notification {
    type V = NotificationView;

    open spec fn view(&self) -> NotificationView {
        NotificationView { channel: self.channel@, title: self.title@, body: self.body@ }
    }
}

/// How to log in at a mail relay.
#[derive(Clone, Debug, PartialEq, Eq)]
pub struct Login {
    pub host: String,
    pub username: String,
    pub password: String,
}

/// Mail as the transport of a channel.
#[derive(Clone, Debug, PartialEq, Eq)]
pub struct Smtp {
    pub from: String,
    pub to: String,
    /// Without a login the mail goes to the relay on this host, unauthenticated.
    pub login: Option<Login>,
}

/// A notification channel as configured. Without a transport it swallows
/// what it is given.
#[derive(Clone, Debug, PartialEq, Eq)]
pub struct NotificationConfig {
    pub name: String,
    pub smtp: Option<Smtp>,
}

/// A plain-text mail.
#[derive(Clone, Debug, PartialEq, Eq)]
pub struct Email {
    pub from: String,
    pub to: String,
    pub subject: String,
    pub body: String,
}

/// Where a notification goes.
#[derive(Clone, Debug, PartialEq, Eq)]
pub enum Delivery {
    /// Nowhere: the channel has no transport.
    Discard,
    /// To the relay on this host, without authentication or encryption.
    LocalRelay(Email),
    /// To a relay over STARTTLS, with credentials.
    StartTls { email: Email, host: String, username: String, password: String },
}

pub struct EmailView {
    pub from: Seq<char>,
    pub to: Seq<char>,
    pub subject: Seq<char>,
    pub body: Seq<char>,
}

pub enum DeliveryView {
    Discard,
    LocalRelay(EmailView),
    StartTls { email: EmailView, host: Seq<char>, username: Seq<char>, password: Seq<char> },
}

impl View for Email {
    type V = EmailView;

    open spec fn view(&self) -> EmailView {
        EmailView { from: self.from@, to: self.to@, subject: self.subject@, body: self.body@ }
    }
}

impl View for Delivery {
    type V = DeliveryView;

    open spec fn view(&self) -> DeliveryView {
        match self {
            Delivery::Discard => DeliveryView::Discard,
            Delivery::LocalRelay(email) => DeliveryView::LocalRelay(email@),
            Delivery::StartTls { email, host, username, password } => DeliveryView::StartTls {
                email: email@,
                host: host@,
                username: username@,
                password: password@,
            },
        }
    }
}

/// The title of a notification that stands for several.
pub open spec fn aggregate_title() -> Seq<char> {
    "Ramon Aggregated Notification"@
}

/// The texts one after the other, with a newline between each two.
pub open spec fn joined(texts: Seq<Seq<char>>) -> Seq<char>
    decreases texts.len(),
{
    if texts.len() == 0 {
        Seq::empty()
    } else if texts.len() == 1 {
        texts[0]
    } else {
        joined(texts.drop_last()) + seq!['\n'] + texts.last()
    }
}

/// The bodies of the notifications, in their order.
pub open spec fn bodies(queue: Seq<NotificationView>) -> Seq<Seq<char>> {
    Seq::new(queue.len(), |k: int| queue[k].body)
}

/// What a tick sends for a queue: nothing when it is empty, the notification
/// itself when there is one, and otherwise one notification for the channel
/// that holds all the bodies, in the order of arrival.
pub open spec fn flushed(channel: Seq<char>, queue: Seq<NotificationView>) -> Option<
    NotificationView,
> {
    if queue.len() == 0 {
        None
    } else if queue.len() == 1 {
        Some(queue[0])
    } else {
        Some(
            NotificationView {
                channel,
                title: aggregate_title(),
                body: joined(bodies(queue)),
            },
        )
    }
}

/// What wakes an aggregator.
pub enum Wake {
    Arrival(NotificationView),
    Tick,
}

/// What wakes an aggregator, as it happens.
#[derive(Clone, Debug, PartialEq, Eq)]
pub enum Signal {
    Arrival(Notification),
    Tick,
}

impl View for Signal {
    type V = Wake;

    open spec fn view(&self) -> Wake {
        match self {
            Signal::Arrival(notification) => Wake::Arrival(notification@),
            Signal::Tick => Wake::Tick,
        }
    }
}

/// The wake-ups that a run of signals stands for.
pub open spec fn wakes_of(signals: Seq<Signal>) -> Seq<Wake> {
    Seq::new(signals.len(), |k: int| signals[k]@)
}

/// The notifications as the decisions see them.
pub open spec fn views_of(notifications: Seq<Notification>) -> Seq<NotificationView> {
    Seq::new(notifications.len(), |k: int| notifications[k]@)
}

/// One turn of an aggregator: the queue afterwards, and what is sent.
pub open spec fn turn(
    batching: bool,
    channel: Seq<char>,
    queue: Seq<NotificationView>,
    wake: Wake,
) -> (Seq<NotificationView>, Option<NotificationView>) {
    match wake {
        Wake::Arrival(notification) => if batching {
            (queue.push(notification), None)
        } else {
            (queue, Some(notification))
        },
        Wake::Tick => (Seq::empty(), flushed(channel, queue)),
    }
}

/// The queue after a run of turns.
pub open spec fn run_queue(
    batching: bool,
    channel: Seq<char>,
    queue: Seq<NotificationView>,
    wakes: Seq<Wake>,
) -> Seq<NotificationView>
    decreases wakes.len(),
{
    if wakes.len() == 0 {
        queue
    } else {
        turn(batching, channel, run_queue(batching, channel, queue, wakes.drop_last()), wakes.last()).0
    }
}

/// All that a run of turns sends, in order.
pub open spec fn run_sent(
    batching: bool,
    channel: Seq<char>,
    queue: Seq<NotificationView>,
    wakes: Seq<Wake>,
) -> Seq<NotificationView>
    decreases wakes.len(),
{
    if wakes.len() == 0 {
        Seq::empty()
    } else {
        let before = run_sent(batching, channel, queue, wakes.drop_last());
        match turn(
            batching,
            channel,
            run_queue(batching, channel, queue, wakes.drop_last()),
            wakes.last(),
        ).1 {
            Some(notification) => before.push(notification),
            None => before,
        }
    }
}

/// The arrivals of these notifications, one after the other.
pub open spec fn arrivals(notifications: Seq<NotificationView>) -> Seq<Wake> {
    Seq::new(notifications.len(), |k: int| Wake::Arrival(notifications[k]))
}

/// Without an interval every notification is sent by itself, as it is, in
/// the order of arrival, and nothing is kept.
pub proof fn lemma_unbatched_in_order(channel: Seq<char>, notifications: Seq<NotificationView>)
    ensures
        run_sent(false, channel, Seq::empty(), arrivals(notifications)) == notifications,
        run_queue(false, channel, Seq::empty(), arrivals(notifications)).len() == 0,
    decreases notifications.len(),
{
    let wakes = arrivals(notifications);
    if notifications.len() > 0 {
        lemma_unbatched_in_order(channel, notifications.drop_last());
        assert(wakes.drop_last() =~= arrivals(notifications.drop_last()));
        assert(run_sent(false, channel, Seq::empty(), wakes) =~= notifications);
    } else {
        assert(run_sent(false, channel, Seq::empty(), wakes) =~= notifications);
    }
}

/// With an interval, notifications that arrive between two ticks are kept
/// in the order of arrival and nothing is sent before the tick.
pub proof fn lemma_window_keeps(channel: Seq<char>, notifications: Seq<NotificationView>)
    ensures
        run_queue(true, channel, Seq::empty(), arrivals(notifications)) == notifications,
        run_sent(true, channel, Seq::empty(), arrivals(notifications)).len() == 0,
    decreases notifications.len(),
{
    let wakes = arrivals(notifications);
    if notifications.len() > 0 {
        lemma_window_keeps(channel, notifications.drop_last());
        assert(wakes.drop_last() =~= arrivals(notifications.drop_last()));
        assert(run_queue(true, channel, Seq::empty(), wakes) =~= notifications);
    } else {
        assert(run_queue(true, channel, Seq::empty(), wakes) =~= notifications);
    }
}

/// With an interval, the tick that ends a window sends nothing when nothing
/// arrived, the one notification unchanged when one arrived, and otherwise
/// exactly one notification, whose body is the bodies joined by newlines in
/// the order of arrival; the queue is empty afterwards.
pub proof fn lemma_window_flush(channel: Seq<char>, notifications: Seq<NotificationView>)
    ensures
        run_queue(true, channel, Seq::empty(), arrivals(notifications).push(Wake::Tick)).len() == 0,
        run_sent(true, channel, Seq::empty(), arrivals(notifications).push(Wake::Tick)) == (
        if notifications.len() == 0 {
            Seq::<NotificationView>::empty()
        } else if notifications.len() == 1 {
            seq![notifications[0]]
        } else {
            seq![
                NotificationView {
                    channel,
                    title: aggregate_title(),
                    body: joined(bodies(notifications)),
                },
            ]
        }),
{
    let wakes = arrivals(notifications).push(Wake::Tick);
    lemma_window_keeps(channel, notifications);
    assert(wakes.drop_last() =~= arrivals(notifications));
    assert(wakes.last() == Wake::Tick);
    let sent = run_sent(true, channel, Seq::empty(), wakes);
    if notifications.len() == 0 {
        assert(sent =~= Seq::<NotificationView>::empty());
    } else if notifications.len() == 1 {
        assert(sent =~= seq![notifications[0]]);
    } else {
        assert(sent =~= seq![
            NotificationView {
                channel,
                title: aggregate_title(),
                body: joined(bodies(notifications)),
            },
        ]);
    }
}

/// The notifications of one channel that wait for the next tick.
#[derive(Clone, Debug)]
pub struct Aggregator {
    config: NotificationConfig,
    interval: Option<Duration>,
    queue: Vec<Notification>,
}

pub struct AggregatorView {
    pub channel: Seq<char>,
    pub batching: bool,
    pub queue: Seq<NotificationView>,
}

impl View for Aggregator {
    type V = AggregatorView;

    closed spec fn view(&self) -> AggregatorView {
        AggregatorView {
            channel: self.config.name@,
            batching: self.interval is Some,
            queue: Seq::new(self.queue@.len(), |k: int| self.queue@[k]@),
        }
    }
}

impl Aggregator {
    /// An aggregator for a channel, with nothing waiting. With an interval
    /// it gathers what arrives between ticks; without one it sends at once.
    pub fn init(notify_config: NotificationConfig, interval: Option<Duration>) -> (made: Aggregator)
        ensures
            made@.channel == notify_config.name@,
            made@.batching == interval is Some,
            made@.queue.len() == 0,
            made.config() == notify_config,
            made.interval() == interval,
    {
        Aggregator { config: notify_config, interval, queue: Vec::new() }
    }

    pub closed spec fn config(&self) -> NotificationConfig {
        self.config
    }

    pub closed spec fn interval(&self) -> Option<Duration> {
        self.interval
    }

    /// The interval between two ticks, if the channel gathers.
    pub fn period(&self) -> (period: Option<&Duration>)
        ensures
            period is Some == self@.batching,
            period matches Some(span) ==> self.interval() == Some(*span),
    {
        self.interval.as_ref()
    }

    /// A notification has arrived: it is handed back to be sent at once, or
    /// kept for the next tick.
    pub fn receive(&mut self, notification: Notification) -> (due: Option<Notification>)
        ensures
            final(self)@.channel == old(self)@.channel,
            final(self)@.batching == old(self)@.batching,
            final(self).config() == old(self).config(),
            final(self).interval() == old(self).interval(),
            final(self)@.queue == turn(
                old(self)@.batching,
                old(self)@.channel,
                old(self)@.queue,
                Wake::Arrival(notification@),
            ).0,
            option_view(due) == turn(
                old(self)@.batching,
                old(self)@.channel,
                old(self)@.queue,
                Wake::Arrival(notification@),
            ).1,
    {
        if self.interval.is_some() {
            self.queue.push(notification);
            assert(self@.queue =~= old(self)@.queue.push(notification@));
            None
        } else {
            Some(notification)
        }
    }

    /// The timer has fired: what waited is handed back as one notification
    /// to be sent, and the queue is empty again.
    pub fn tick(&mut self) -> (due: Option<Notification>)
        ensures
            final(self)@.channel == old(self)@.channel,
            final(self)@.batching == old(self)@.batching,
            final(self).config() == old(self).config(),
            final(self).interval() == old(self).interval(),
            final(self)@.queue == turn(
                old(self)@.batching,
                old(self)@.channel,
                old(self)@.queue,
                Wake::Tick,
            ).0,
            option_view(due) == turn(
                old(self)@.batching,
                old(self)@.channel,
                old(self)@.queue,
                Wake::Tick,
            ).1,
    {
        if self.queue.len() == 0 {
            assert(self@.queue =~= Seq::<NotificationView>::empty());
            return None;
        }
        if self.queue.len() == 1 {
            let only = self.queue.pop();
            assert(self@.queue =~= Seq::<NotificationView>::empty());
            return only;
        }
        let ghost waiting = self@.queue;
        let ghost texts = bodies(waiting);
        let mut body = self.queue[0].body.clone();
        let mut at: usize = 1;
        assert(texts.take(1) =~= seq![texts[0]]);
        while at < self.queue.len()
            invariant
                1 <= at <= self.queue.len(),
                self@.queue == waiting,
                waiting.len() == self.queue.len(),
                texts == bodies(waiting),
                body@ == joined(texts.take(at as int)),
            decreases self.queue.len() - at,
        {
            proof {
                reveal_strlit("\n");
                assert("\n"@ =~= seq!['\n']);
                assert(texts.take(at + 1).drop_last() =~= texts.take(at as int));
                assert(texts[at as int] == self.queue[at as int].body@);
            }
            body.append("\n");
            body.append(self.queue[at].body.as_str());
            at += 1;
        }
        assert(texts.take(at as int) =~= texts);
        let channel = self.config.name.clone();
        self.queue.clear();
        assert(self@.queue =~= Seq::<NotificationView>::empty());
        Some(Notification { channel, title: "Ramon Aggregated Notification".to_owned(), body })
    }

    /// Takes a run of wake-ups, one after the other, and hands back all that
    /// is due for sending, in the order in which it falls due.
    pub fn start(&mut self, signals: Vec<Signal>) -> (due: Vec<Notification>)
        ensures
            final(self)@.channel == old(self)@.channel,
            final(self)@.batching == old(self)@.batching,
            final(self).config() == old(self).config(),
            final(self).interval() == old(self).interval(),
            final(self)@.queue == run_queue(
                old(self)@.batching,
                old(self)@.channel,
                old(self)@.queue,
                wakes_of(signals@),
            ),
            views_of(due@) == run_sent(
                old(self)@.batching,
                old(self)@.channel,
                old(self)@.queue,
                wakes_of(signals@),
            ),
    {
        let ghost all = signals@;
        let ghost wakes = wakes_of(all);
        let ghost batching = self@.batching;
        let ghost channel = self@.channel;
        let ghost waiting = self@.queue;
        let ghost config = self.config();
        let ghost interval = self.interval();
        let mut rest = reversed(signals);
        let mut due: Vec<Notification> = Vec::new();
        assert(wakes.take(0) =~= Seq::<Wake>::empty());
        assert(views_of(due@) =~= Seq::<NotificationView>::empty());
        while rest.len() > 0
            invariant
                wakes == wakes_of(all),
                rest@ == all.reverse().take(rest.len() as int),
                rest.len() <= all.len(),
                self@.channel == channel,
                self@.batching == batching,
                self.config() == config,
                self.interval() == interval,
                self@.queue == run_queue(
                    batching,
                    channel,
                    waiting,
                    wakes.take(all.len() - rest.len()),
                ),
                views_of(due@) == run_sent(
                    batching,
                    channel,
                    waiting,
                    wakes.take(all.len() - rest.len()),
                ),
            decreases rest.len(),
        {
            let ghost done = all.len() - rest.len();
            let ghost sent_before = views_of(due@);
            let signal = rest.pop().unwrap();
            assert(signal == all[done]);
            proof {
                assert(wakes.take(done + 1).drop_last() =~= wakes.take(done));
                assert(wakes.take(done + 1).last() == signal@);
            }
            let now = match signal {
                Signal::Arrival(notification) => self.receive(notification),
                Signal::Tick => self.tick(),
            };
            match now {
                Some(notification) => {
                    due.push(notification);
                    assert(views_of(due@) =~= sent_before.push(notification@));
                },
                None => {},
            }
        }
        assert(wakes.take(all.len() as int) =~= wakes);
        due
    }

    /// Where a notification of this channel goes, and as what mail: the
    /// title is the subject, the body the text.
    pub fn send(&self, notification: Notification) -> (delivery: Delivery)
        ensures
            delivery@ == delivery_of(self.config(), notification@),
    {
        match &self.config.smtp {
            None => Delivery::Discard,
            Some(smtp) => {
                let email = Email {
                    from: smtp.from.clone(),
                    to: smtp.to.clone(),
                    subject: notification.title,
                    body: notification.body,
                };
                match &smtp.login {
                    None => Delivery::LocalRelay(email),
                    Some(login) => Delivery::StartTls {
                        email,
                        host: login.host.clone(),
                        username: login.username.clone(),
                        password: login.password.clone(),
                    },
                }
            },
        }
    }
}

pub open spec fn option_view(notification: Option<Notification>) -> Option<NotificationView> {
    match notification {
        Some(notification) => Some(notification@),
        None => None,
    }
}

/// Where a channel sends a notification: nowhere without a transport; as a
/// mail from and to the configured addresses, to the local relay without a
/// login and over STARTTLS with one.
pub open spec fn delivery_of(config: NotificationConfig, notification: NotificationView) -> DeliveryView {
    match config.smtp {
        None => DeliveryView::Discard,
        Some(smtp) => {
            let email = EmailView {
                from: smtp.from@,
                to: smtp.to@,
                subject: notification.title,
                body: notification.body,
            };
            match smtp.login {
                None => DeliveryView::LocalRelay(email),
                Some(login) => DeliveryView::StartTls {
                    email,
                    host: login.host@,
                    username: login.username@,
                    password: login.password@,
                },
            }
        },
    }
}

} // verus!
