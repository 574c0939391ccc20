//! Relay of live log-file updates: the identity of a log stream, the
//! messages that travel between tailer, relay and viewer, and the decisions
//! each side of the relay takes.

use vstd::prelude::*;
use crate::server::broadcaster::Broadcasters;
use crate::text::{
    chars_of, comes_before, decimal, eq_ignoring_ascii_case, equals_ignoring_ascii_case,
    lemma_decimal_injective, lemma_precedes_irreflexive, lemma_precedes_total,
    lemma_precedes_transitive, precedes, push_decimal,
};

pub mod client;
pub mod message;
pub mod server;
pub mod text;

verus! {

/// Pod name that asks the relay to pick a free synthetic pod name.
pub const DEFAULT_APPLICATION: &'static str = "<--DEFAULT-->";

/// One pod of an application that runs as several pods.
#[derive(Debug, Clone, PartialEq, Eq, PartialOrd, Ord)]
pub struct MultiPodApplication {
    pub application: String,
    pub pod_name: String,
}

/// The identity of a log stream.
#[derive(Debug, Clone, PartialEq, Eq, PartialOrd, Ord)]
pub enum Applicatiton {
    SinglePod(String),
    MultiPod(MultiPodApplication),
}

/// Mathematical value of a [`MultiPodApplication`].
pub struct MultiPodApplicationView {
    pub application: Seq<char>,
    pub pod_name: Seq<char>,
}

/// Mathematical value of an [`Applicatiton`].
pub enum ApplicatitonView {
    SinglePod(Seq<char>),
    MultiPod(MultiPodApplicationView),
}

impl View for MultiPodApplication {
    type V = MultiPodApplicationView;

    open spec fn view(&self) -> MultiPodApplicationView {
        MultiPodApplicationView { application: self.application@, pod_name: self.pod_name@ }
    }
}

impl View for Applicatiton {
    type V = ApplicatitonView;

    open spec fn view(&self) -> ApplicatitonView {
        match self {
            Applicatiton::SinglePod(name) => ApplicatitonView::SinglePod(name@),
            Applicatiton::MultiPod(pod) => ApplicatitonView::MultiPod(pod@),
        }
    }
}

impl ApplicatitonView {
    /// The application's name, whichever pod it is.
    pub open spec fn name(self) -> Seq<char> {
        match self {
            ApplicatitonView::SinglePod(name) => name,
            ApplicatitonView::MultiPod(pod) => pod.application,
        }
    }
}

impl ApplicatitonView {
    /// The order of identities: an application of one pod comes before
    /// every pod of an application of several; applications of one pod are
    /// ordered by name; pods by application and then by pod name. Names are
    /// ordered character by character.
    pub open spec fn precedes(self, other: ApplicatitonView) -> bool {
        match self {
            ApplicatitonView::SinglePod(name) => match other {
                ApplicatitonView::SinglePod(other_name) => precedes(name, other_name),
                ApplicatitonView::MultiPod(_) => true,
            },
            ApplicatitonView::MultiPod(pod) => match other {
                ApplicatitonView::SinglePod(_) => false,
                ApplicatitonView::MultiPod(other_pod) => precedes(
                    pod.application,
                    other_pod.application,
                ) || (pod.application == other_pod.application && precedes(
                    pod.pod_name,
                    other_pod.pod_name,
                )),
            },
        }
    }
}

/// The order of identities is transitive.
pub proof fn lemma_identity_order_transitive(
    a: ApplicatitonView,
    b: ApplicatitonView,
    c: ApplicatitonView,
)
    requires
        a.precedes(b),
        b.precedes(c),
    ensures
        a.precedes(c),
{
    match (a, b, c) {
        (
            ApplicatitonView::SinglePod(x),
            ApplicatitonView::SinglePod(y),
            ApplicatitonView::SinglePod(z),
        ) => {
            lemma_precedes_transitive(x, y, z);
        },
        (
            ApplicatitonView::MultiPod(x),
            ApplicatitonView::MultiPod(y),
            ApplicatitonView::MultiPod(z),
        ) => {
            if precedes(x.application, y.application) && precedes(y.application, z.application) {
                lemma_precedes_transitive(x.application, y.application, z.application);
            }
            if x.application == y.application && y.application == z.application {
                lemma_precedes_irreflexive(x.application);
                lemma_precedes_transitive(x.pod_name, y.pod_name, z.pod_name);
            }
        },
        _ => {},
    }
}

/// Of two different identities one comes before the other, and none comes
/// before itself.
pub proof fn lemma_identity_order_total(a: ApplicatitonView, b: ApplicatitonView)
    ensures
        a != b ==> a.precedes(b) || b.precedes(a),
        !a.precedes(a),
{
    match a {
        ApplicatitonView::SinglePod(x) => {
            lemma_precedes_irreflexive(x);
        },
        ApplicatitonView::MultiPod(x) => {
            lemma_precedes_irreflexive(x.application);
            lemma_precedes_irreflexive(x.pod_name);
        },
    }
    if a != b {
        match (a, b) {
            (ApplicatitonView::SinglePod(x), ApplicatitonView::SinglePod(y)) => {
                lemma_precedes_total(x, y);
            },
            (ApplicatitonView::MultiPod(x), ApplicatitonView::MultiPod(y)) => {
                if x.application != y.application {
                    lemma_precedes_total(x.application, y.application);
                } else {
                    lemma_precedes_total(x.pod_name, y.pod_name);
                }
            },
            _ => {},
        }
    }
}

impl MultiPodApplication {
    pub fn new(application: String, pod_name: String) -> (pod: Self)
        ensures
            pod@.application == application@,
            pod@.pod_name == pod_name@,
    {
        MultiPodApplication { application, pod_name }
    }

    /// Whether `self` and `other` name the same pod of the same application.
    pub fn same_as(&self, other: &MultiPodApplication) -> (same: bool)
        ensures
            same == (self@ == other@),
    {
        self.application == other.application && self.pod_name == other.pod_name
    }
}

impl Applicatiton {
    pub fn name(&self) -> (name: String)
        ensures
            name@ == self@.name(),
    {
        match self {
            Applicatiton::SinglePod(name) => name.clone(),
            Applicatiton::MultiPod(multi_pod) => multi_pod.application.clone(),
        }
    }

    /// Whether `self` and `other` are the same identity.
    pub fn same_as(&self, other: &Applicatiton) -> (same: bool)
        ensures
            same == (self@ == other@),
    {
        match self {
            Applicatiton::SinglePod(name) => match other {
                Applicatiton::SinglePod(other_name) => *name == *other_name,
                Applicatiton::MultiPod(_) => false,
            },
            Applicatiton::MultiPod(pod) => match other {
                Applicatiton::SinglePod(_) => false,
                Applicatiton::MultiPod(other_pod) => pod.same_as(other_pod),
            },
        }
    }

    /// Whether `self` comes before `other` in the order of identities.
    pub fn comes_before(&self, other: &Applicatiton) -> (before: bool)
        ensures
            before == self@.precedes(other@),
    {
        match self {
            Applicatiton::SinglePod(name) => match other {
                Applicatiton::SinglePod(other_name) => comes_before(
                    &chars_of(name.as_str()),
                    &chars_of(other_name.as_str()),
                ),
                Applicatiton::MultiPod(_) => true,
            },
            Applicatiton::MultiPod(pod) => match other {
                Applicatiton::SinglePod(_) => false,
                Applicatiton::MultiPod(other_pod) => {
                    if pod.application == other_pod.application {
                        proof {
                            lemma_precedes_irreflexive(pod.application@);
                        }
                        comes_before(
                            &chars_of(pod.pod_name.as_str()),
                            &chars_of(other_pod.pod_name.as_str()),
                        )
                    } else {
                        comes_before(
                            &chars_of(pod.application.as_str()),
                            &chars_of(other_pod.application.as_str()),
                        )
                    }
                },
            },
        }
    }

    /// A copy of this identity.
    pub fn duplicate(&self) -> (copy: Applicatiton)
        ensures
            copy@ == self@,
    {
        match self {
            Applicatiton::SinglePod(name) => Applicatiton::SinglePod(name.clone()),
            Applicatiton::MultiPod(pod) => Applicatiton::MultiPod(
                MultiPodApplication {
                    application: pod.application.clone(),
                    pod_name: pod.pod_name.clone(),
                },
            ),
        }
    }
}

/// The synthetic pod name with number `k`.
pub open spec fn pod_name(k: nat) -> Seq<char> {
    "Pod "@ + decimal(k)
}

/// Pod number `k` of `application`.
pub open spec fn pod_of(application: Seq<char>, k: nat) -> ApplicatitonView {
    ApplicatitonView::MultiPod(MultiPodApplicationView { application, pod_name: pod_name(k) })
}

/// Whether `pod_name` asks for a synthetic pod name: it is
/// [`DEFAULT_APPLICATION`], in any mix of upper and lower case.
pub open spec fn asks_for_pod_name(pod_name: Seq<char>) -> bool {
    eq_ignoring_ascii_case(pod_name, DEFAULT_APPLICATION@)
}

/// Whether `k` is the lowest pod number of `application` that is not among
/// `registered`.
pub open spec fn is_lowest_free_pod(
    registered: Set<ApplicatitonView>,
    application: Seq<char>,
    k: nat,
) -> bool {
    &&& !registered.contains(pod_of(application, k))
    &&& forall|j: nat| j < k ==> registered.contains(#[trigger] pod_of(application, j))
}

/// The lowest pod number of `application` that is not among `registered`.
pub open spec fn lowest_free_pod(registered: Set<ApplicatitonView>, application: Seq<char>) -> nat {
    choose|k: nat| is_lowest_free_pod(registered, application, k)
}

/// The identity under which `identity` is registered when `registered` are
/// the identities in the registry: an identity that asks for a synthetic
/// pod name gets the lowest-numbered one that is free; every other identity
/// stays as it is.
pub open spec fn resolved(identity: ApplicatitonView, registered: Set<ApplicatitonView>) -> ApplicatitonView {
    match identity {
        ApplicatitonView::SinglePod(_) => identity,
        ApplicatitonView::MultiPod(pod) => if asks_for_pod_name(pod.pod_name) {
            pod_of(pod.application, lowest_free_pod(registered, pod.application))
        } else {
            identity
        },
    }
}

/// Pods of one application with different numbers are different identities.
pub proof fn lemma_pods_differ(application: Seq<char>, j: nat, k: nat)
    requires
        pod_of(application, j) == pod_of(application, k),
    ensures
        j == k,
{
    let prefix = "Pod "@;
    assert(pod_name(j) == pod_name(k));
    assert(decimal(j) == pod_name(j).skip(prefix.len() as int));
    assert(decimal(k) == pod_name(k).skip(prefix.len() as int));
    lemma_decimal_injective(j, k);
}

/// At most one number is the lowest free pod number.
pub proof fn lemma_lowest_free_pod_is_unique(
    registered: Set<ApplicatitonView>,
    application: Seq<char>,
    k: nat,
)
    requires
        is_lowest_free_pod(registered, application, k),
    ensures
        lowest_free_pod(registered, application) == k,
{
    let chosen = lowest_free_pod(registered, application);
    assert(is_lowest_free_pod(registered, application, chosen));
    if chosen < k {
        assert(registered.contains(pod_of(application, chosen)));
    }
    if k < chosen {
        assert(registered.contains(pod_of(application, k)));
    }
}

/// A finite registry that holds the pods numbered below `n` of one
/// application holds at least `n` identities.
pub proof fn lemma_pods_fill_the_registry(
    registered: Set<ApplicatitonView>,
    application: Seq<char>,
    n: nat,
)
    requires
        registered.finite(),
        forall|j: nat| j < n ==> registered.contains(#[trigger] pod_of(application, j)),
    ensures
        n <= registered.len(),
    decreases n,
{
    if n > 0 {
        let last = pod_of(application, (n - 1) as nat);
        let rest = registered.remove(last);
        assert forall|j: nat| j < n - 1 implies rest.contains(#[trigger] pod_of(application, j)) by {
            if pod_of(application, j) == last {
                lemma_pods_differ(application, j, (n - 1) as nat);
            }
        }
        lemma_pods_fill_the_registry(rest, application, (n - 1) as nat);
    }
}

/// A finite registry has a lowest free pod number for every application.
pub proof fn lemma_lowest_free_pod_exists(registered: Set<ApplicatitonView>, application: Seq<char>)
    requires
        registered.finite(),
    ensures
        is_lowest_free_pod(registered, application, lowest_free_pod(registered, application)),
{
    lemma_free_pod_from(registered, application, 0);
}

proof fn lemma_free_pod_from(registered: Set<ApplicatitonView>, application: Seq<char>, k: nat)
    requires
        registered.finite(),
        forall|j: nat| j < k ==> registered.contains(#[trigger] pod_of(application, j)),
    ensures
        is_lowest_free_pod(registered, application, lowest_free_pod(registered, application)),
    decreases registered.len() - k,
{
    if !registered.contains(pod_of(application, k)) {
        assert(is_lowest_free_pod(registered, application, k));
    } else {
        assert forall|j: nat| j < k + 1 implies registered.contains(
            #[trigger] pod_of(application, j),
        ) by {}
        lemma_pods_fill_the_registry(registered, application, k + 1);
        lemma_free_pod_from(registered, application, k + 1);
    }
}

/// Resolution never gives an identity that is registered already, and
/// identities that resolve one after the other, each registered before the
/// next resolves, get different pod names: where `k` was the lowest free
/// number, the lowest free number after pod `k` is registered is greater
/// than `k`, and it is `k + 1` where that pod is free.
pub proof fn lemma_resolution_never_collides(
    registered: Set<ApplicatitonView>,
    application: Seq<char>,
    k: nat,
)
    requires
        is_lowest_free_pod(registered, application, k),
    ensures
        lowest_free_pod(registered, application) == k,
        !registered.contains(pod_of(application, k)),
        forall|next: nat|
            is_lowest_free_pod(registered.insert(pod_of(application, k)), application, next)
                ==> next > k,
        !registered.contains(pod_of(application, k + 1)) ==> lowest_free_pod(
            registered.insert(pod_of(application, k)),
            application,
        ) == k + 1,
{
    lemma_lowest_free_pod_is_unique(registered, application, k);
    let grown = registered.insert(pod_of(application, k));
    assert forall|next: nat| is_lowest_free_pod(grown, application, next) implies next > k by {
        if next < k {
            assert(registered.contains(pod_of(application, next)));
        }
    }
    if !registered.contains(pod_of(application, k + 1)) {
        assert(!grown.contains(pod_of(application, k + 1))) by {
            if pod_of(application, k + 1) == pod_of(application, k) {
                lemma_pods_differ(application, k + 1, k);
            }
        }
        assert forall|j: nat| j < k + 1 implies grown.contains(#[trigger] pod_of(application, j)) by {
            if j < k {
                assert(registered.contains(pod_of(application, j)));
            }
        }
        lemma_lowest_free_pod_is_unique(grown, application, k + 1);
    }
}

impl Applicatiton {
    /// The identity under which this one is registered in `configuration`:
    /// see [`resolved`].
    pub fn configure_default_pods<H>(&self, configuration: &Broadcasters<H>) -> (identity: Self)
        ensures
            identity@ == resolved(self@, configuration@.dom()),
            match self@ {
                ApplicatitonView::MultiPod(pod) => asks_for_pod_name(pod.pod_name)
                    ==> is_lowest_free_pod(
                    configuration@.dom(),
                    pod.application,
                    lowest_free_pod(configuration@.dom(), pod.application),
                ),
                ApplicatitonView::SinglePod(_) => true,
            },
    {
        match self {
            Applicatiton::SinglePod(_) => self.duplicate(),
            Applicatiton::MultiPod(multi_pod_application) => {
                if equals_ignoring_ascii_case(
                    multi_pod_application.pod_name.as_str(),
                    DEFAULT_APPLICATION,
                ) {
                    let ghost registered = configuration@.dom();
                    let ghost name = multi_pod_application.application@;
                    let count = configuration.len();
                    let mut pod_id: usize = 0;
                    loop
                        invariant
                            pod_id <= count,
                            count == registered.len(),
                            registered.finite(),
                            registered == configuration@.dom(),
                            name == multi_pod_application.application@,
                            self@ == ApplicatitonView::MultiPod(multi_pod_application@),
                            asks_for_pod_name(multi_pod_application.pod_name@),
                            forall|j: nat|
                                j < pod_id ==> registered.contains(#[trigger] pod_of(name, j)),
                        decreases count - pod_id,
                    {
                        let mut pod_name = String::from_str("Pod ");
                        push_decimal(&mut pod_name, pod_id as u64);
                        let application = Applicatiton::MultiPod(
                            MultiPodApplication {
                                application: multi_pod_application.application.clone(),
                                pod_name,
                            },
                        );
                        assert(application@ == pod_of(name, pod_id as nat));
                        if !configuration.contains_key(&application) {
                            proof {
                                lemma_lowest_free_pod_is_unique(registered, name, pod_id as nat);
                            }
                            return application;
                        }
                        proof {
                            assert forall|j: nat| j < pod_id + 1 implies registered.contains(
                                #[trigger] pod_of(name, j),
                            ) by {}
                            lemma_pods_fill_the_registry(registered, name, (pod_id + 1) as nat);
                        }
                        pod_id += 1;
                    }
                } else {
                    self.duplicate()
                }
            },
        }
    }
}

} // verus!
