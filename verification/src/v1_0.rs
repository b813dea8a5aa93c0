//! Version 1.0.x specification models.

use vstd::prelude::*;

use crate::either::Either;
use crate::errors::ErrV;
use crate::extensions::{AnyV, AnyValue};
use crate::nodes::{JsonNode, JsonV};
use crate::numbers::num_eq;
use crate::payloads::{payload_text, Payload, PayloadV};
use crate::text::str_eq;

verus! {

broadcast use vstd::group_vstd_default;

/// Ghost mirror of [`Info`].
pub struct InfoV {
    pub title: Seq<char>,
    pub summary: Option<Seq<char>>,
    pub description: Option<Seq<char>>,
    pub version: Seq<char>,
    pub extensions: Seq<(Seq<char>, AnyV)>,
}

/// 4.6.2 Info Object
#[derive(Debug, Clone, PartialEq)]
pub struct Info {
    /// A human-readable title of the description document.
    pub title: String,
    /// A short summary of the description document.
    pub summary: Option<String>,
    /// A description of the purpose of the workflows defined.
    pub description: Option<String>,
    /// Document version
    pub version: String,
    /// Extension values
    pub extensions: Vec<(String, AnyValue)>,
}

impl DeepView for Info {
    type V = InfoV;

    open spec fn deep_view(&self) -> InfoV {
        InfoV {
            title: self.title@,
            summary: self.summary.deep_view(),
            description: self.description.deep_view(),
            version: self.version@,
            extensions: self.extensions.deep_view(),
        }
    }
}

/// Ghost mirror of [`SourceDescription`].
pub struct SourceDescriptionV {
    pub name: Seq<char>,
    pub url: Seq<char>,
    pub type_: Option<Seq<char>>,
    pub extensions: Seq<(Seq<char>, AnyV)>,
}

/// 4.6.3 Source Description Object
#[derive(Debug, Clone, PartialEq)]
pub struct SourceDescription {
    /// Unique name for the source description.
    pub name: String,
    /// URL to a source description to be used by a workflow.
    pub url: String,
    /// The type of source description.
    pub type_: Option<String>,
    /// Extension values
    pub extensions: Vec<(String, AnyValue)>,
}

impl DeepView for SourceDescription {
    type V = SourceDescriptionV;

    open spec fn deep_view(&self) -> SourceDescriptionV {
        SourceDescriptionV {
            name: self.name@,
            url: self.url@,
            type_: self.type_.deep_view(),
            extensions: self.extensions.deep_view(),
        }
    }
}

/// Ghost mirror of [`ParameterObject`].
pub struct ParameterObjectV {
    pub name: Seq<char>,
    pub in_: Option<Seq<char>>,
    pub value: Either<AnyV, Seq<char>>,
    pub extensions: Seq<(Seq<char>, AnyV)>,
}

/// 4.6.6 Parameter Object
#[derive(Debug, Clone, PartialEq)]
pub struct ParameterObject {
    /// The name of the parameter.
    pub name: String,
    /// The location of the parameter.
    pub in_: Option<String>,
    /// Value to pass in the parameter: either literal data or a
    /// runtime expression string.
    pub value: Either<AnyValue, String>,
    /// Extension values
    pub extensions: Vec<(String, AnyValue)>,
}

impl DeepView for ParameterObject {
    type V = ParameterObjectV;

    open spec fn deep_view(&self) -> ParameterObjectV {
        ParameterObjectV {
            name: self.name@,
            in_: self.in_.deep_view(),
            value: self.value.deep_view(),
            extensions: self.extensions.deep_view(),
        }
    }
}

/// Ghost mirror of [`ReusableObject`].
pub struct ReusableObjectV {
    pub reference: Seq<char>,
    pub value: Option<Seq<char>>,
}

/// 4.6.10 Reusable Object
#[derive(Debug, Clone, PartialEq)]
pub struct ReusableObject {
    /// Runtime Expression used to reference the desired object.
    pub reference: String,
    /// Sets a value of the referenced parameter.
    pub value: Option<String>,
}

impl DeepView for ReusableObject {
    type V = ReusableObjectV;

    open spec fn deep_view(&self) -> ReusableObjectV {
        ReusableObjectV { reference: self.reference@, value: self.value.deep_view() }
    }
}

/// Ghost mirror of [`CriterionExpressionType`].
pub struct CriterionExpressionTypeV {
    pub type_: Seq<char>,
    pub version: Seq<char>,
    pub extensions: Seq<(Seq<char>, AnyV)>,
}

/// 4.6.12 Criterion Expression Type Object
#[derive(Debug, Clone, PartialEq)]
pub struct CriterionExpressionType {
    /// The type of condition to be applied.
    pub type_: String,
    /// A shorthand string representing the version of the expression
    /// type being used.
    pub version: String,
    /// Extension values
    pub extensions: Vec<(String, AnyValue)>,
}

impl DeepView for CriterionExpressionType {
    type V = CriterionExpressionTypeV;

    open spec fn deep_view(&self) -> CriterionExpressionTypeV {
        CriterionExpressionTypeV {
            type_: self.type_@,
            version: self.version@,
            extensions: self.extensions.deep_view(),
        }
    }
}

/// Ghost mirror of [`Criterion`].
pub struct CriterionV {
    pub context: Option<Seq<char>>,
    pub condition: Seq<char>,
    pub type_: Option<Either<Seq<char>, CriterionExpressionTypeV>>,
    pub extensions: Seq<(Seq<char>, AnyV)>,
}

/// 4.6.11 Criterion Object
#[derive(Debug, Clone, PartialEq)]
pub struct Criterion {
    /// Runtime Expression used to set the context for the condition to
    /// be applied on.
    pub context: Option<String>,
    /// The condition to apply.
    pub condition: String,
    /// The type of condition to be applied: a short name or a full
    /// Criterion Expression Type record.
    pub type_: Option<Either<String, CriterionExpressionType>>,
    /// Extension values
    pub extensions: Vec<(String, AnyValue)>,
}

impl DeepView for Criterion {
    type V = CriterionV;

    open spec fn deep_view(&self) -> CriterionV {
        CriterionV {
            context: self.context.deep_view(),
            condition: self.condition@,
            type_: self.type_.deep_view(),
            extensions: self.extensions.deep_view(),
        }
    }
}

/// Ghost mirror of [`SuccessObject`].
pub struct SuccessObjectV {
    pub name: Seq<char>,
    pub type_: Seq<char>,
    pub workflow_id: Option<Seq<char>>,
    pub step_id: Option<Seq<char>>,
    pub criteria: Seq<CriterionV>,
    pub extensions: Seq<(Seq<char>, AnyV)>,
}

/// 4.6.7 Success Action Object
#[derive(Debug, Clone, PartialEq)]
pub struct SuccessObject {
    /// The name of the success action.
    pub name: String,
    /// The type of action to take.
    pub type_: String,
    /// The workflowId referencing an existing workflow to transfer to
    /// upon success of the step.
    pub workflow_id: Option<String>,
    /// The stepId to transfer to upon success of the step.
    pub step_id: Option<String>,
    /// List of assertions to determine if this action shall be executed.
    pub criteria: Vec<Criterion>,
    /// Extension values
    pub extensions: Vec<(String, AnyValue)>,
}

impl DeepView for SuccessObject {
    type V = SuccessObjectV;

    open spec fn deep_view(&self) -> SuccessObjectV {
        SuccessObjectV {
            name: self.name@,
            type_: self.type_@,
            workflow_id: self.workflow_id.deep_view(),
            step_id: self.step_id.deep_view(),
            criteria: self.criteria.deep_view(),
            extensions: self.extensions.deep_view(),
        }
    }
}

/// Ghost mirror of [`FailureObject`].
pub struct FailureObjectV {
    pub name: Seq<char>,
    pub type_: Seq<char>,
    pub workflow_id: Option<Seq<char>>,
    pub step_id: Option<Seq<char>>,
    pub retry_after: Option<serde_json::Number>,
    pub retry_limit: Option<i64>,
    pub criteria: Seq<CriterionV>,
    pub extensions: Seq<(Seq<char>, AnyV)>,
}

/// 4.6.8 Failure Action Object
#[derive(Debug, Clone, PartialEq)]
pub struct FailureObject {
    /// The name of the failure action.
    pub name: String,
    /// The type of action to take.
    pub type_: String,
    /// The workflowId referencing an existing workflow to transfer to
    /// upon failure of the step.
    pub workflow_id: Option<String>,
    /// The stepId to transfer to upon failure of the step.
    pub step_id: Option<String>,
    /// A non-negative number of seconds to delay after the step
    /// failure before another attempt shall be made.
    pub retry_after: Option<serde_json::Number>,
    /// A non-negative integer indicating how many attempts to retry
    /// the step may be attempted before failing the overall step.
    pub retry_limit: Option<i64>,
    /// List of assertions to determine if this action shall be executed.
    pub criteria: Vec<Criterion>,
    /// Extension values
    pub extensions: Vec<(String, AnyValue)>,
}

impl DeepView for FailureObject {
    type V = FailureObjectV;

    open spec fn deep_view(&self) -> FailureObjectV {
        FailureObjectV {
            name: self.name@,
            type_: self.type_@,
            workflow_id: self.workflow_id.deep_view(),
            step_id: self.step_id.deep_view(),
            retry_after: self.retry_after,
            retry_limit: self.retry_limit.deep_view(),
            criteria: self.criteria.deep_view(),
            extensions: self.extensions.deep_view(),
        }
    }
}

/// Ghost mirror of [`PayloadReplacement`].
pub struct PayloadReplacementV {
    pub target: Seq<char>,
    pub value: Either<AnyV, Seq<char>>,
    pub extensions: Seq<(Seq<char>, AnyV)>,
}

/// 4.6.14 Payload Replacement Object
#[derive(Debug, Clone, PartialEq)]
pub struct PayloadReplacement {
    /// A JSON Pointer or XPath Expression which must be resolved
    /// against the request body.
    pub target: String,
    /// The value set within the target location.
    pub value: Either<AnyValue, String>,
    /// Extension values
    pub extensions: Vec<(String, AnyValue)>,
}

impl DeepView for PayloadReplacement {
    type V = PayloadReplacementV;

    open spec fn deep_view(&self) -> PayloadReplacementV {
        PayloadReplacementV {
            target: self.target@,
            value: self.value.deep_view(),
            extensions: self.extensions.deep_view(),
        }
    }
}

/// Ghost mirror of [`RequestBody`].
pub struct RequestBodyV {
    pub content_type: Option<Seq<char>>,
    pub payload: Option<PayloadV>,
    pub replacements: Seq<PayloadReplacementV>,
    pub extensions: Seq<(Seq<char>, AnyV)>,
}

/// 4.6.13 Request Body Object
#[derive(Debug, Clone)]
pub struct RequestBody {
    /// Content-Type for the request content.
    pub content_type: Option<String>,
    /// Value representing the request body payload.
    pub payload: Option<Payload>,
    /// List of locations and values to set within a payload
    pub replacements: Vec<PayloadReplacement>,
    /// Extension values
    pub extensions: Vec<(String, AnyValue)>,
}

impl DeepView for RequestBody {
    type V = RequestBodyV;

    open spec fn deep_view(&self) -> RequestBodyV {
        RequestBodyV {
            content_type: self.content_type.deep_view(),
            payload: self.payload.deep_view(),
            replacements: self.replacements.deep_view(),
            extensions: self.extensions.deep_view(),
        }
    }
}

/// Ghost mirror of [`Step`].
pub struct StepV {
    pub step_id: Seq<char>,
    pub operation_id: Option<Seq<char>>,
    pub operation_path: Option<Seq<char>>,
    pub workflow_id: Option<Seq<char>>,
    pub description: Option<Seq<char>>,
    pub parameters: Seq<Either<ParameterObjectV, ReusableObjectV>>,
    pub request_body: Option<RequestBodyV>,
    pub success_criteria: Seq<CriterionV>,
    pub on_success: Seq<Either<SuccessObjectV, ReusableObjectV>>,
    pub on_failure: Seq<Either<FailureObjectV, ReusableObjectV>>,
    pub outputs: Seq<(Seq<char>, Seq<char>)>,
    pub extensions: Seq<(Seq<char>, AnyV)>,
}

/// 4.6.5 Step Object
#[derive(Debug, Clone, PartialEq)]
pub struct Step {
    /// Unique string to represent the step.
    pub step_id: String,
    /// Name of an existing, resolvable operation.
    pub operation_id: Option<String>,
    /// Reference to a Source Description Object combined with a JSON
    /// Pointer to reference an operation.
    pub operation_path: Option<String>,
    /// The workflow Id referencing an existing workflow within the
    /// description document.
    pub workflow_id: Option<String>,
    /// Description of the step.
    pub description: Option<String>,
    /// List of parameters to pass to an operation or workflow.
    pub parameters: Vec<Either<ParameterObject, ReusableObject>>,
    /// Request body to pass to an operation.
    pub request_body: Option<RequestBody>,
    /// List of assertions to determine the success of the step.
    pub success_criteria: Vec<Criterion>,
    /// Success action objects that apply upon step success.
    pub on_success: Vec<Either<SuccessObject, ReusableObject>>,
    /// Failure action objects that apply upon step failure.
    pub on_failure: Vec<Either<FailureObject, ReusableObject>>,
    /// Defined outputs of the step.
    pub outputs: Vec<(String, String)>,
    /// Extension values
    pub extensions: Vec<(String, AnyValue)>,
}

impl DeepView for Step {
    type V = StepV;

    open spec fn deep_view(&self) -> StepV {
        StepV {
            step_id: self.step_id@,
            operation_id: self.operation_id.deep_view(),
            operation_path: self.operation_path.deep_view(),
            workflow_id: self.workflow_id.deep_view(),
            description: self.description.deep_view(),
            parameters: self.parameters.deep_view(),
            request_body: self.request_body.deep_view(),
            success_criteria: self.success_criteria.deep_view(),
            on_success: self.on_success.deep_view(),
            on_failure: self.on_failure.deep_view(),
            outputs: self.outputs.deep_view(),
            extensions: self.extensions.deep_view(),
        }
    }
}

/// Ghost mirror of [`Workflow`].
pub struct WorkflowV {
    pub workflow_id: Seq<char>,
    pub summary: Option<Seq<char>>,
    pub description: Option<Seq<char>>,
    pub inputs: JsonV,
    pub depends_on: Seq<Seq<char>>,
    pub steps: Seq<StepV>,
    pub success_actions: Seq<Either<SuccessObjectV, ReusableObjectV>>,
    pub failure_actions: Seq<Either<FailureObjectV, ReusableObjectV>>,
    pub outputs: Seq<(Seq<char>, Seq<char>)>,
    pub parameters: Seq<Either<ParameterObjectV, ReusableObjectV>>,
    pub extensions: Seq<(Seq<char>, AnyV)>,
}

/// 4.6.4 Workflow Object
#[derive(Debug, Clone, PartialEq)]
pub struct Workflow {
    /// Unique string to represent the workflow.
    pub workflow_id: String,
    /// Summary of the purpose or objective of the workflow.
    pub summary: Option<String>,
    /// Description of the workflow.
    pub description: Option<String>,
    /// Schema tree representing the input parameters used by the
    /// workflow; an externally-defined schema kept as a generic tree.
    pub inputs: JsonNode,
    /// List of workflows that must be completed before this workflow.
    pub depends_on: Vec<String>,
    /// An ordered list of workflow steps
    pub steps: Vec<Step>,
    /// Success actions that apply to all steps of the workflow.
    pub success_actions: Vec<Either<SuccessObject, ReusableObject>>,
    /// Failure actions that apply to all steps of the workflow.
    pub failure_actions: Vec<Either<FailureObject, ReusableObject>>,
    /// Defined outputs of the workflow.
    pub outputs: Vec<(String, String)>,
    /// Parameters that apply to all steps of the workflow.
    pub parameters: Vec<Either<ParameterObject, ReusableObject>>,
    /// Extension values
    pub extensions: Vec<(String, AnyValue)>,
}

impl DeepView for Workflow {
    type V = WorkflowV;

    open spec fn deep_view(&self) -> WorkflowV {
        WorkflowV {
            workflow_id: self.workflow_id@,
            summary: self.summary.deep_view(),
            description: self.description.deep_view(),
            inputs: self.inputs.deep_view(),
            depends_on: self.depends_on.deep_view(),
            steps: self.steps.deep_view(),
            success_actions: self.success_actions.deep_view(),
            failure_actions: self.failure_actions.deep_view(),
            outputs: self.outputs.deep_view(),
            parameters: self.parameters.deep_view(),
            extensions: self.extensions.deep_view(),
        }
    }
}

/// Ghost mirror of [`Components`].
pub struct ComponentsV {
    pub inputs: Seq<(Seq<char>, JsonV)>,
    pub parameters: Seq<(Seq<char>, ParameterObjectV)>,
    pub success_actions: Seq<(Seq<char>, SuccessObjectV)>,
    pub failure_actions: Seq<(Seq<char>, FailureObjectV)>,
    pub extensions: Seq<(Seq<char>, AnyV)>,
}

/// 4.6.9 Components Object
#[derive(Debug, Clone, PartialEq)]
pub struct Components {
    /// Reusable schema trees to be referenced from workflow inputs.
    pub inputs: Vec<(String, JsonNode)>,
    /// Reusable Parameter Objects
    pub parameters: Vec<(String, ParameterObject)>,
    /// Reusable Success Actions Objects.
    pub success_actions: Vec<(String, SuccessObject)>,
    /// Reusable Failure Actions Objects.
    pub failure_actions: Vec<(String, FailureObject)>,
    /// Extension values
    pub extensions: Vec<(String, AnyValue)>,
}

impl DeepView for Components {
    type V = ComponentsV;

    open spec fn deep_view(&self) -> ComponentsV {
        ComponentsV {
            inputs: self.inputs.deep_view(),
            parameters: self.parameters.deep_view(),
            success_actions: self.success_actions.deep_view(),
            failure_actions: self.failure_actions.deep_view(),
            extensions: self.extensions.deep_view(),
        }
    }
}

impl Default for Components {
    /// An empty components element: every mapping empty.
    fn default() -> (r: Components)
        ensures
            r.deep_view().inputs == Seq::<(Seq<char>, JsonV)>::empty(),
            r.deep_view().parameters == Seq::<(Seq<char>, ParameterObjectV)>::empty(),
            r.deep_view().success_actions == Seq::<(Seq<char>, SuccessObjectV)>::empty(),
            r.deep_view().failure_actions == Seq::<(Seq<char>, FailureObjectV)>::empty(),
            r.deep_view().extensions == Seq::<(Seq<char>, AnyV)>::empty(),
    {
        let r = Components {
            inputs: Vec::new(),
            parameters: Vec::new(),
            success_actions: Vec::new(),
            failure_actions: Vec::new(),
            extensions: Vec::new(),
        };
        proof {
            assert(r.deep_view().inputs =~= Seq::<(Seq<char>, JsonV)>::empty());
            assert(r.deep_view().parameters =~= Seq::<(Seq<char>, ParameterObjectV)>::empty());
            assert(r.deep_view().success_actions =~= Seq::<(Seq<char>, SuccessObjectV)>::empty());
            assert(r.deep_view().failure_actions =~= Seq::<(Seq<char>, FailureObjectV)>::empty());
            assert(r.deep_view().extensions =~= Seq::<(Seq<char>, AnyV)>::empty());
        }
        r
    }
}

/// Ghost mirror of [`ArazzoDescription`].
pub struct ArazzoDescriptionV {
    pub arazzo: Seq<char>,
    pub info: InfoV,
    pub source_descriptions: Seq<SourceDescriptionV>,
    pub workflows: Seq<WorkflowV>,
    pub components: ComponentsV,
    pub extensions: Seq<(Seq<char>, AnyV)>,
}

/// 4.6.1 The root object of the loaded description document.
#[derive(Debug, Clone, PartialEq)]
pub struct ArazzoDescription {
    /// Version number of the specification the document follows.
    pub arazzo: String,
    /// Metadata about the workflows defined in the document.
    pub info: Info,
    /// List of source descriptions
    pub source_descriptions: Vec<SourceDescription>,
    /// List of workflows
    pub workflows: Vec<Workflow>,
    /// An element to hold shared schemas.
    pub components: Components,
    /// Extension values
    pub extensions: Vec<(String, AnyValue)>,
}

impl DeepView for ArazzoDescription {
    type V = ArazzoDescriptionV;

    open spec fn deep_view(&self) -> ArazzoDescriptionV {
        ArazzoDescriptionV {
            arazzo: self.arazzo@,
            info: self.info.deep_view(),
            source_descriptions: self.source_descriptions.deep_view(),
            workflows: self.workflows.deep_view(),
            components: self.components.deep_view(),
            extensions: self.extensions.deep_view(),
        }
    }
}

/// Content equality of dynamic values: structural, except that opaque
/// numbers compare by their numeric equality.
pub open spec fn spec_any_eq(a: AnyV, b: AnyV) -> bool
    decreases a, 0int,
{
    match (a, b) {
        (AnyV::Null, AnyV::Null) => true,
        (AnyV::Boolean(x), AnyV::Boolean(y)) => x == y,
        (AnyV::Integer(x), AnyV::Integer(y)) => x == y,
        (AnyV::UInteger(x), AnyV::UInteger(y)) => x == y,
        (AnyV::Float(x), AnyV::Float(y)) => num_eq(x, y),
        (AnyV::String(x), AnyV::String(y)) => x == y,
        (AnyV::Array(x), AnyV::Array(y)) => x.len() == y.len() && spec_any_seq_eq(
            x,
            y,
            x.len() as int,
        ),
        (AnyV::Object(x), AnyV::Object(y)) => x.len() == y.len() && spec_any_entries_eq(
            x,
            y,
            x.len() as int,
        ),
        _ => false,
    }
}

/// Content equality of the first `n` positions of two arrays.
pub open spec fn spec_any_seq_eq(x: Seq<AnyV>, y: Seq<AnyV>, n: int) -> bool
    decreases x, n,
{
    if n <= 0 || n > x.len() || n > y.len() {
        true
    } else {
        spec_any_seq_eq(x, y, n - 1) && spec_any_eq(x[n - 1], y[n - 1])
    }
}

/// Content equality of the first `n` entries of two objects.
pub open spec fn spec_any_entries_eq(
    x: Seq<(Seq<char>, AnyV)>,
    y: Seq<(Seq<char>, AnyV)>,
    n: int,
) -> bool
    decreases x, n,
{
    if n <= 0 || n > x.len() || n > y.len() {
        true
    } else {
        spec_any_entries_eq(x, y, n - 1) && x[n - 1].0 == y[n - 1].0 && spec_any_eq(
            x[n - 1].1,
            y[n - 1].1,
        )
    }
}

/// Content equality of two dynamic values.
pub fn any_value_eq(a: &AnyValue, b: &AnyValue) -> (r: bool)
    ensures
        r == spec_any_eq(a.deep_view(), b.deep_view()),
    decreases *a,
{
    match (a, b) {
        (AnyValue::Null, AnyValue::Null) => true,
        (AnyValue::Boolean(x), AnyValue::Boolean(y)) => *x == *y,
        (AnyValue::Integer(x), AnyValue::Integer(y)) => *x == *y,
        (AnyValue::UInteger(x), AnyValue::UInteger(y)) => *x == *y,
        (AnyValue::Float(x), AnyValue::Float(y)) => x.eq(y),
        (AnyValue::String(x), AnyValue::String(y)) => str_eq(x.as_str(), y.as_str()),
        (AnyValue::Array(x), AnyValue::Array(y)) => {
            let ghost xv = a.deep_view()->Array_0;
            let ghost yv = b.deep_view()->Array_0;
            proof {
                crate::extensions::lemma_any_items_dv(x@, x@.len() as int);
                crate::extensions::lemma_any_items_dv(y@, y@.len() as int);
            }
            if x.len() != y.len() {
                return false;
            }
            let mut ok = true;
            let mut i: usize = 0;
            while i < x.len()
                invariant
                    i <= x.len(),
                    x@.len() == y@.len(),
                    xv.len() == x@.len(),
                    yv.len() == y@.len(),
                    forall|k: int| 0 <= k < x@.len() ==> xv[k] == x@[k].deep_view(),
                    forall|k: int| 0 <= k < y@.len() ==> yv[k] == y@[k].deep_view(),
                    ok == spec_any_seq_eq(xv, yv, i as int),
                decreases x.len() - i,
            {
                proof {
                    assert(decreases_to!(*a => *x));
                    assert(decreases_to!(*x => x@[i as int]));
                }
                let e = any_value_eq(&x[i], &y[i]);
                ok = ok && e;
                i = i + 1;
            }
            ok
        },
        (AnyValue::Object(x), AnyValue::Object(y)) => {
            let ghost xv = a.deep_view()->Object_0;
            let ghost yv = b.deep_view()->Object_0;
            proof {
                crate::extensions::lemma_any_entries_dv(x@, x@.len() as int);
                crate::extensions::lemma_any_entries_dv(y@, y@.len() as int);
            }
            if x.len() != y.len() {
                return false;
            }
            let mut ok = true;
            let mut i: usize = 0;
            while i < x.len()
                invariant
                    i <= x.len(),
                    x@.len() == y@.len(),
                    xv.len() == x@.len(),
                    yv.len() == y@.len(),
                    forall|k: int|
                        0 <= k < x@.len() ==> xv[k] == (x@[k].0@, x@[k].1.deep_view()),
                    forall|k: int|
                        0 <= k < y@.len() ==> yv[k] == (y@[k].0@, y@[k].1.deep_view()),
                    ok == spec_any_entries_eq(xv, yv, i as int),
                decreases x.len() - i,
            {
                proof {
                    assert(decreases_to!(*a => *x));
                    assert(decreases_to!(*x => x@[i as int]));
                    assert(decreases_to!(x@[i as int] => x@[i as int].1));
                }
                let ke = str_eq(x[i].0.as_str(), y[i].0.as_str());
                let ve = any_value_eq(&x[i].1, &y[i].1);
                ok = ok && ke && ve;
                i = i + 1;
            }
            ok
        },
        _ => false,
    }
}

/// Content equality of two extension mappings, position for position.
pub open spec fn spec_ext_eq(x: Seq<(Seq<char>, AnyV)>, y: Seq<(Seq<char>, AnyV)>) -> bool {
    x.len() == y.len() && spec_any_entries_eq(x, y, x.len() as int)
}

/// Content equality of two extension mappings.
pub fn ext_eq(x: &Vec<(String, AnyValue)>, y: &Vec<(String, AnyValue)>) -> (r: bool)
    ensures
        r == spec_ext_eq(x.deep_view(), y.deep_view()),
{
    let ghost xv = x.deep_view();
    let ghost yv = y.deep_view();
    if x.len() != y.len() {
        return false;
    }
    let mut ok = true;
    let mut i: usize = 0;
    while i < x.len()
        invariant
            i <= x.len(),
            x@.len() == y@.len(),
            xv.len() == x@.len(),
            yv.len() == y@.len(),
            ok == spec_any_entries_eq(xv, yv, i as int),
        decreases x.len() - i,
    {
        proof {
            assert(xv[i as int] == (x@[i as int].0@, x@[i as int].1.deep_view()));
            assert(yv[i as int] == (y@[i as int].0@, y@[i as int].1.deep_view()));
        }
        let ke = str_eq(x[i].0.as_str(), y[i].0.as_str());
        let ve = any_value_eq(&x[i].1, &y[i].1);
        ok = ok && ke && ve;
        i = i + 1;
    }
    ok
}

/// Content equality of two optional strings.
fn opt_string_eq(a: &Option<String>, b: &Option<String>) -> (r: bool)
    ensures
        r == (a.deep_view() == b.deep_view()),
{
    match (a, b) {
        (Option::None, Option::None) => true,
        (Option::Some(x), Option::Some(y)) => str_eq(x.as_str(), y.as_str()),
        _ => false,
    }
}

/// Content equality of two literal-or-expression values.
pub open spec fn spec_value_eq(
    a: Either<AnyV, Seq<char>>,
    b: Either<AnyV, Seq<char>>,
) -> bool {
    match (a, b) {
        (Either::First(x), Either::First(y)) => spec_any_eq(x, y),
        (Either::Second(x), Either::Second(y)) => x == y,
        _ => false,
    }
}

/// Content equality of two literal-or-expression values.
pub fn value_eq(a: &Either<AnyValue, String>, b: &Either<AnyValue, String>) -> (r: bool)
    ensures
        r == spec_value_eq(a.deep_view(), b.deep_view()),
{
    match (a, b) {
        (Either::First(x), Either::First(y)) => any_value_eq(x, y),
        (Either::Second(x), Either::Second(y)) => str_eq(x.as_str(), y.as_str()),
        _ => false,
    }
}

/// Content equality of two payload replacements.
pub open spec fn spec_replacement_eq(a: PayloadReplacementV, b: PayloadReplacementV) -> bool {
    &&& a.target == b.target
    &&& spec_value_eq(a.value, b.value)
    &&& spec_ext_eq(a.extensions, b.extensions)
}

/// Content equality of two replacement lists, position for position.
pub open spec fn spec_replacements_eq(
    x: Seq<PayloadReplacementV>,
    y: Seq<PayloadReplacementV>,
) -> bool {
    x.len() == y.len() && forall|i: int|
        0 <= i < x.len() ==> spec_replacement_eq(#[trigger] x[i], y[i])
}

/// Equality of two request bodies: equal content type, extensions and
/// replacement lists, and payloads whose byte renderings coincide
/// exactly (both may also be absent).
pub open spec fn spec_request_body_eq(a: RequestBodyV, b: RequestBodyV) -> bool {
    &&& a.content_type == b.content_type
    &&& spec_ext_eq(a.extensions, b.extensions)
    &&& spec_replacements_eq(a.replacements, b.replacements)
    &&& match (a.payload, b.payload) {
        (Option::None, Option::None) => true,
        (Option::Some(p), Option::Some(q)) => payload_text(p) == payload_text(q),
        _ => false,
    }
}

impl PartialEq for RequestBody {
    /// Two request bodies are equal when content type, extensions and
    /// replacements match and the payloads render to the same bytes.
    fn eq(&self, other: &Self) -> (r: bool) {
        let ct = opt_string_eq(&self.content_type, &other.content_type);
        let ex = ext_eq(&self.extensions, &other.extensions);
        let mut re = self.replacements.len() == other.replacements.len();
        if re {
            let ghost xv = self.replacements.deep_view();
            let ghost yv = other.replacements.deep_view();
            let mut i: usize = 0;
            while i < self.replacements.len()
                invariant
                    i <= self.replacements.len(),
                    self.replacements@.len() == other.replacements@.len(),
                    xv.len() == self.replacements@.len(),
                    yv.len() == other.replacements@.len(),
                    re == forall|k: int|
                        0 <= k < i ==> spec_replacement_eq(#[trigger] xv[k], yv[k]),
                decreases self.replacements.len() - i,
            {
                proof {
                    assert(xv[i as int] == self.replacements@[i as int].deep_view());
                    assert(yv[i as int] == other.replacements@[i as int].deep_view());
                }
                let x = &self.replacements[i];
                let y = &other.replacements[i];
                let t = str_eq(x.target.as_str(), y.target.as_str());
                let v = value_eq(&x.value, &y.value);
                let e = ext_eq(&x.extensions, &y.extensions);
                re = re && t && v && e;
                i = i + 1;
            }
        }
        let pl = match (&self.payload, &other.payload) {
            (Option::None, Option::None) => true,
            (Option::Some(p), Option::Some(q)) => {
                let ps = p.as_string();
                let qs = q.as_string();
                str_eq(ps.as_str(), qs.as_str())
            },
            _ => false,
        };
        ct && ex && re && pl
    }
}

impl vstd::std_specs::cmp::PartialEqSpecImpl for RequestBody {
    open spec fn obeys_eq_spec() -> bool {
        true
    }

    open spec fn eq_spec(&self, other: &RequestBody) -> bool {
        spec_request_body_eq(self.deep_view(), other.deep_view())
    }
}

} // verus!
