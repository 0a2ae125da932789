//! The topics that the simulator publishes and subscribes to.
use vstd::prelude::*;
use vstd::string::*;

verus! {

#[derive(Debug, Clone, Copy, PartialEq, Eq, Structural)]
pub enum Topic {
    CameraInfo,
    ImageRaw,
    ImageCompressed,
    LivoxPointCloud,
    GlobalTransform,
    OutpostMarker,
    GimbalPose,
    OdomPose,
    MuzzlePose,
    CameraPose,
    TechCoreState,
    GimbalCmd,
    CmdVel,
}

#[derive(Debug, Clone, Copy, PartialEq, Eq, Structural)]
pub enum Direction {
    Publish,
    Subscribe,
}

/// How messages of a topic are delivered.
#[derive(Debug, Clone, Copy, PartialEq, Eq, Structural)]
pub enum Delivery {
    Default,
    SensorData,
}

impl Topic {
    pub open spec fn url_spec(self) -> Seq<char> {
        match self {
            Topic::CameraInfo => "/camera_info"@,
            Topic::ImageRaw => "/image_raw"@,
            Topic::ImageCompressed => "/image_raw/compressed"@,
            Topic::LivoxPointCloud => "/livox/lidar"@,
            Topic::GlobalTransform => "/tf"@,
            Topic::OutpostMarker => "/simulator/marker"@,
            Topic::GimbalPose => "/gimbal_pose"@,
            Topic::OdomPose => "/odom_pose"@,
            Topic::MuzzlePose => "/muzzle_pose"@,
            Topic::CameraPose => "/camera_pose"@,
            Topic::TechCoreState => "/simulator/tech_core/state"@,
            Topic::GimbalCmd => "/rm_gimbal/cmd"@,
            Topic::CmdVel => "/cmd_vel"@,
        }
    }

    /// The name of the topic. The compressed image is named so that image transports find it
    /// beside the raw one.
    pub fn url(self) -> (r: &'static str)
        ensures
            r@ == self.url_spec(),
    {
        match self {
            Topic::CameraInfo => "/camera_info",
            Topic::ImageRaw => "/image_raw",
            Topic::ImageCompressed => "/image_raw/compressed",
            Topic::LivoxPointCloud => "/livox/lidar",
            Topic::GlobalTransform => "/tf",
            Topic::OutpostMarker => "/simulator/marker",
            Topic::GimbalPose => "/gimbal_pose",
            Topic::OdomPose => "/odom_pose",
            Topic::MuzzlePose => "/muzzle_pose",
            Topic::CameraPose => "/camera_pose",
            Topic::TechCoreState => "/simulator/tech_core/state",
            Topic::GimbalCmd => "/rm_gimbal/cmd",
            Topic::CmdVel => "/cmd_vel",
        }
    }

    /// Commands come in, everything else goes out.
    pub fn direction(self) -> (r: Direction)
        ensures
            r == (if self is GimbalCmd || self is CmdVel {
                Direction::Subscribe
            } else {
                Direction::Publish
            }),
    {
        match self {
            Topic::GimbalCmd | Topic::CmdVel => Direction::Subscribe,
            _ => Direction::Publish,
        }
    }

    /// Commands are delivered like sensor data: the newest one counts.
    pub fn delivery(self) -> (r: Delivery)
        ensures
            r == (if self is GimbalCmd || self is CmdVel {
                Delivery::SensorData
            } else {
                Delivery::Default
            }),
    {
        match self {
            Topic::GimbalCmd | Topic::CmdVel => Delivery::SensorData,
            _ => Delivery::Default,
        }
    }
}

/// The topics that the simulator publishes, in the order in which their publishers are made.
pub open spec fn published_topics() -> Seq<Topic> {
    seq![
        Topic::CameraInfo,
        Topic::ImageRaw,
        Topic::ImageCompressed,
        Topic::LivoxPointCloud,
        Topic::GlobalTransform,
        Topic::OutpostMarker,
        Topic::GimbalPose,
        Topic::OdomPose,
        Topic::MuzzlePose,
        Topic::CameraPose,
        Topic::TechCoreState,
    ]
}

/// The topics to make publishers for.
pub fn register_pub() -> (r: Vec<Topic>)
    ensures
        r@ == published_topics(),
{
    let topics: Vec<Topic> = vec![
        Topic::CameraInfo,
        Topic::ImageRaw,
        Topic::ImageCompressed,
        Topic::LivoxPointCloud,
        Topic::GlobalTransform,
        Topic::OutpostMarker,
        Topic::GimbalPose,
        Topic::OdomPose,
        Topic::MuzzlePose,
        Topic::CameraPose,
        Topic::TechCoreState,
    ];
    proof {
        assert(topics@ =~= published_topics());
    }
    topics
}

/// The topics to subscribe to.
pub fn register_sub() -> (r: Vec<Topic>)
    ensures
        r@ == seq![Topic::GimbalCmd, Topic::CmdVel],
{
    let topics: Vec<Topic> = vec![Topic::GimbalCmd, Topic::CmdVel];
    proof {
        assert(topics@ =~= seq![Topic::GimbalCmd, Topic::CmdVel]);
    }
    topics
}

/// No two topics share a name.
pub proof fn law_topic_names_are_distinct(a: Topic, b: Topic)
    requires
        a.url_spec() == b.url_spec(),
    ensures
        a == b,
{
    reveal_strlit("/camera_info");
    reveal_strlit("/image_raw");
    reveal_strlit("/image_raw/compressed");
    reveal_strlit("/livox/lidar");
    reveal_strlit("/tf");
    reveal_strlit("/simulator/marker");
    reveal_strlit("/gimbal_pose");
    reveal_strlit("/odom_pose");
    reveal_strlit("/muzzle_pose");
    reveal_strlit("/camera_pose");
    reveal_strlit("/simulator/tech_core/state");
    reveal_strlit("/rm_gimbal/cmd");
    reveal_strlit("/cmd_vel");
    let url = a.url_spec();
    assert(url.len() == b.url_spec().len());
    assert(url[1] == b.url_spec()[1]);
    assert(url[8] == b.url_spec()[8]);
}

/// Every topic is either published or subscribed to, as its direction says.
pub proof fn law_every_topic_is_registered(topic: Topic)
    ensures
        topic is GimbalCmd || topic is CmdVel || published_topics().contains(topic),
{
    let all = published_topics();
    assert(all[0] is CameraInfo && all[1] is ImageRaw && all[2] is ImageCompressed);
    assert(all[3] is LivoxPointCloud && all[4] is GlobalTransform && all[5] is OutpostMarker);
    assert(all[6] is GimbalPose && all[7] is OdomPose && all[8] is MuzzlePose);
    assert(all[9] is CameraPose && all[10] is TechCoreState);
}

/// How many messages a publisher holds back before it drops the newest.
pub const PUBLISH_QUEUE: usize = 16;

/// The messages of a topic that wait to be sent. Images come faster than they can be sent, so a
/// message that finds the queue full is dropped, while those that wait already go out.
#[derive(Debug, Clone, Copy, PartialEq, Eq, Structural)]
pub struct PublishQueue {
    waiting: usize,
}

impl PublishQueue {
    pub closed spec fn waiting(self) -> nat {
        self.waiting as nat
    }

    #[verifier::type_invariant]
    pub closed spec fn inv(self) -> bool {
        self.waiting <= PUBLISH_QUEUE
    }

    pub fn new() -> (r: Self)
        ensures
            r.waiting() == 0,
    {
        PublishQueue { waiting: 0 }
    }

    /// Whether a message is queued rather than dropped.
    pub fn offer(&mut self) -> (r: bool)
        ensures
            r == (old(self).waiting() < PUBLISH_QUEUE),
            final(self).waiting() == old(self).waiting() + (if r {
                1int
            } else {
                0int
            }),
            final(self).waiting() <= PUBLISH_QUEUE,
    {
        proof {
            use_type_invariant(&*self);
        }
        if self.waiting < PUBLISH_QUEUE {
            self.waiting = self.waiting + 1;
            true
        } else {
            false
        }
    }

    /// Takes note that a message was sent.
    pub fn sent(&mut self)
        ensures
            final(self).waiting() == (if old(self).waiting() > 0 {
                old(self).waiting() - 1
            } else {
                0
            }),
    {
        proof {
            use_type_invariant(&*self);
        }
        if self.waiting > 0 {
            self.waiting = self.waiting - 1;
        }
    }
}

/// The messages that wait after a list of events, each of which offers a message or sends one.
pub open spec fn waiting_after(offers: Seq<bool>) -> nat
    decreases offers.len(),
{
    if offers.len() == 0 {
        0
    } else {
        let before = waiting_after(offers.drop_last());
        if offers.last() {
            if before < PUBLISH_QUEUE {
                before + 1
            } else {
                before
            }
        } else if before > 0 {
            (before - 1) as nat
        } else {
            0
        }
    }
}

/// The memory that waiting messages take is bounded, however fast they come.
pub proof fn law_waiting_messages_are_bounded(offers: Seq<bool>)
    ensures
        waiting_after(offers) <= PUBLISH_QUEUE,
    decreases offers.len(),
{
    if offers.len() > 0 {
        law_waiting_messages_are_bounded(offers.drop_last());
    }
}

/// The last message of a topic that has not been taken yet.
#[derive(Debug)]
pub struct Mailbox<M> {
    pub message: Option<M>,
}

impl<M> Mailbox<M> {
    pub fn new() -> (r: Self)
        ensures
            r.message is None,
    {
        Mailbox { message: None }
    }

    /// Puts a message in place of one that has not been taken.
    pub fn deliver(&mut self, message: M)
        ensures
            final(self).message == Some(message),
    {
        self.message = Some(message);
    }

    /// Takes the message.
    pub fn try_recv(&mut self) -> (r: Option<M>)
        ensures
            r == old(self).message,
            final(self).message is None,
    {
        self.message.take()
    }
}

/// The name of every topic.
pub proof fn law_names_of_the_topics(topic: Topic)
    ensures
        topic.url_spec() == "/camera_info"@ <==> topic is CameraInfo,
        topic.url_spec() == "/image_raw"@ <==> topic is ImageRaw,
        topic.url_spec() == "/image_raw/compressed"@ <==> topic is ImageCompressed,
        topic.url_spec() == "/livox/lidar"@ <==> topic is LivoxPointCloud,
        topic.url_spec() == "/tf"@ <==> topic is GlobalTransform,
        topic.url_spec() == "/simulator/marker"@ <==> topic is OutpostMarker,
        topic.url_spec() == "/gimbal_pose"@ <==> topic is GimbalPose,
        topic.url_spec() == "/odom_pose"@ <==> topic is OdomPose,
        topic.url_spec() == "/muzzle_pose"@ <==> topic is MuzzlePose,
        topic.url_spec() == "/camera_pose"@ <==> topic is CameraPose,
        topic.url_spec() == "/simulator/tech_core/state"@ <==> topic is TechCoreState,
        topic.url_spec() == "/rm_gimbal/cmd"@ <==> topic is GimbalCmd,
        topic.url_spec() == "/cmd_vel"@ <==> topic is CmdVel,
{
    if topic.url_spec() == Topic::CameraInfo.url_spec() {
        law_topic_names_are_distinct(topic, Topic::CameraInfo);
    }
    if topic.url_spec() == Topic::ImageRaw.url_spec() {
        law_topic_names_are_distinct(topic, Topic::ImageRaw);
    }
    if topic.url_spec() == Topic::ImageCompressed.url_spec() {
        law_topic_names_are_distinct(topic, Topic::ImageCompressed);
    }
    if topic.url_spec() == Topic::LivoxPointCloud.url_spec() {
        law_topic_names_are_distinct(topic, Topic::LivoxPointCloud);
    }
    if topic.url_spec() == Topic::GlobalTransform.url_spec() {
        law_topic_names_are_distinct(topic, Topic::GlobalTransform);
    }
    if topic.url_spec() == Topic::OutpostMarker.url_spec() {
        law_topic_names_are_distinct(topic, Topic::OutpostMarker);
    }
    if topic.url_spec() == Topic::GimbalPose.url_spec() {
        law_topic_names_are_distinct(topic, Topic::GimbalPose);
    }
    if topic.url_spec() == Topic::OdomPose.url_spec() {
        law_topic_names_are_distinct(topic, Topic::OdomPose);
    }
    if topic.url_spec() == Topic::MuzzlePose.url_spec() {
        law_topic_names_are_distinct(topic, Topic::MuzzlePose);
    }
    if topic.url_spec() == Topic::CameraPose.url_spec() {
        law_topic_names_are_distinct(topic, Topic::CameraPose);
    }
    if topic.url_spec() == Topic::TechCoreState.url_spec() {
        law_topic_names_are_distinct(topic, Topic::TechCoreState);
    }
    if topic.url_spec() == Topic::GimbalCmd.url_spec() {
        law_topic_names_are_distinct(topic, Topic::GimbalCmd);
    }
    if topic.url_spec() == Topic::CmdVel.url_spec() {
        law_topic_names_are_distinct(topic, Topic::CmdVel);
    }
}

/// Nothing is published twice, and commands are not published.
pub proof fn law_topics_are_published_once(i: int, j: int)
    requires
        0 <= i < published_topics().len(),
        0 <= j < published_topics().len(),
        published_topics()[i] == published_topics()[j],
    ensures
        i == j,
        published_topics()[i] !is GimbalCmd,
        published_topics()[i] !is CmdVel,
{
}

/// Messages that come faster than they are sent wait up to the sixteenth, and the next is dropped.
pub proof fn law_sixteen_messages_wait(offers: Seq<bool>)
    requires
        forall|i: int| 0 <= i < offers.len() ==> #[trigger] offers[i],
    ensures
        waiting_after(offers) == (if offers.len() < 16 {
            offers.len()
        } else {
            16
        }),
    decreases offers.len(),
{
    if offers.len() > 0 {
        let rest = offers.drop_last();
        assert forall|i: int| 0 <= i < rest.len() implies #[trigger] rest[i] by {
            assert(rest[i] == offers[i]);
        }
        law_sixteen_messages_wait(rest);
        assert(offers[offers.len() - 1]);
    }
}

} // verus!
